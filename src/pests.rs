//! Pests: infestations that sit on a tile, grow every tick, harm the plant
//! beneath them and spread to neighbouring plants.

use crate::garden::{Grid, Tile};
use crate::plant::Plant;
use crate::rng::{random_below, random_ratio};
use vstd::prelude::*;

verus! {

/// The kinds of pest.
#[derive(Debug, Clone, Copy, PartialEq, Eq, Structural)]
pub enum PestType {
    Aphids,
    SpiderMites,
    Whiteflies,
}

/// An infestation on one tile. Its level is in units of `UNIT`.
#[derive(Debug, Clone, Copy, PartialEq, Eq, Structural)]
pub struct Pest {
    pub pest_type: PestType,
    pub infestation_level: u32,
}


/// How much an infestation grows each tick.
pub const INFESTATION_GROWTH: u32 = 500;

/// The level a pest starts at when it appears on its own.
pub const NEW_PEST_LEVEL: u32 = 1_000;

/// How many kinds of pest there are.
pub const PEST_KINDS: usize = 3;

/// The random choices one tile draws for a pest pass: whether its pest tries
/// to spread and towards which neighbour (a position in `neighbours`), and
/// whether a pest appears on it and of which kind.
#[derive(Debug, Clone, Copy)]
pub struct PestRoll {
    pub spreads: bool,
    pub direction: usize,
    pub emerges: bool,
    pub kind: usize,
}

/// The kind of pest with the given position in the order Aphids,
/// SpiderMites, Whiteflies (the last for every larger position).
pub open spec fn pest_type_at(index: int) -> PestType {
    if index == 0 {
        PestType::Aphids
    } else if index == 1 {
        PestType::SpiderMites
    } else {
        PestType::Whiteflies
    }
}

/// The kind of pest with the given position.
pub fn pest_type_from_index(index: usize) -> (t: PestType)
    ensures
        t == pest_type_at(index as int),
{
    if index == 0 {
        PestType::Aphids
    } else if index == 1 {
        PestType::SpiderMites
    } else {
        PestType::Whiteflies
    }
}

/// A pest one tick older: its level rises, stopping at the largest `u32`.
pub open spec fn aged_pest(p: Pest) -> Pest {
    Pest {
        infestation_level: if p.infestation_level + INFESTATION_GROWTH > u32::MAX {
            u32::MAX
        } else {
            (p.infestation_level + INFESTATION_GROWTH) as u32
        },
        ..p
    }
}

/// A plant harmed by an infestation of the given level: it loses a tenth of
/// the level in health, and health stops at zero.
pub open spec fn damaged(p: Plant, level: u32) -> Plant {
    Plant { health: if p.health > level / 10 { (p.health - level / 10) as u32 } else { 0 }, ..p }
}

/// The in-bounds orthogonal neighbours of `(x, y)` in a grid of the given
/// size, in the order left, right, up, down.
pub open spec fn neighbours(x: usize, y: usize, width: usize, height: usize) -> Seq<(usize, usize)> {
    let a = if x > 0 {
        seq![((x - 1) as usize, y)]
    } else {
        Seq::empty()
    };
    let b = if x + 1 < width {
        a.push(((x + 1) as usize, y))
    } else {
        a
    };
    let c = if y > 0 {
        b.push((x, (y - 1) as usize))
    } else {
        b
    };
    if y + 1 < height {
        c.push((x, (y + 1) as usize))
    } else {
        c
    }
}

/// The rolls hold one roll for each tile of the grid.
pub open spec fn rolls_fit(g: &Grid, rolls: Seq<Vec<PestRoll>>) -> bool {
    &&& rolls.len() == g.tiles@.len()
    &&& forall|r: int| 0 <= r < rolls.len() ==> #[trigger] rolls[r]@.len() == g.tiles@[r]@.len()
}

/// Every roll could have been drawn for its tile: its direction is a
/// position among the tile's neighbours (zero where it has none), and its
/// kind a position among the pest kinds.
pub open spec fn rolls_in_range(g: &Grid, rolls: Seq<Vec<PestRoll>>) -> bool {
    forall|x: int, y: int| #[trigger] g.has_tile(x, y) ==> {
        let roll = rolls[y]@[x];
        let n = neighbours(x as usize, y as usize, g.tiles@[y]@.len() as usize, g.tiles@.len() as usize).len();
        &&& roll.kind < PEST_KINDS
        &&& (if n > 0 { roll.direction < n } else { roll.direction == 0 })
    }
}

/// The tile a pest on `(x, y)` tries to spread to, if it tries.
pub open spec fn spread_target(g: &Grid, rolls: Seq<Vec<PestRoll>>, x: usize, y: usize) -> Option<(usize, usize)> {
    let roll = rolls[y as int]@[x as int];
    let ns = neighbours(x, y, g.tiles@[y as int]@.len() as usize, g.tiles@.len() as usize);
    if roll.spreads && roll.direction < ns.len() {
        Some(ns[roll.direction as int])
    } else {
        None
    }
}

/// The tile `(x, y)` holds a plant and no pest: a pest may arrive there.
pub open spec fn open_for_pest(g: &Grid, x: int, y: int) -> bool {
    g.has_tile(x, y) && g.tile(x, y).plant is Some && g.tile(x, y).pest is None
}

/// The pest that the scan of tile `(sx, sy)` sends to tile `(tx, ty)`: on
/// itself, a new pest that emerges; elsewhere, a copy of its own pest that
/// spreads. Either lands only on a tile with a plant and no pest.
pub open spec fn arrival(g: &Grid, rolls: Seq<Vec<PestRoll>>, sx: int, sy: int, tx: int, ty: int) -> Option<Pest> {
    if !g.has_tile(sx, sy) || !open_for_pest(g, tx, ty) {
        None
    } else if sx == tx && sy == ty {
        let roll = rolls[ty]@[tx];
        if roll.emerges {
            Some(Pest { pest_type: pest_type_at(roll.kind as int), infestation_level: NEW_PEST_LEVEL })
        } else {
            None
        }
    } else {
        match g.tile(sx, sy).pest {
            Some(p) => if spread_target(g, rolls, sx as usize, sy as usize) == Some((tx as usize, ty as usize)) {
                Some(p)
            } else {
                None
            },
            None => None,
        }
    }
}

/// The pest that arrives on `(x, y)` in a pass. The grid is scanned row by
/// row and each row from left to right; where several pests arrive, the one
/// sent latest in that scan stays. Only the tile itself and its four
/// neighbours can send one, so the latest sender is the first of these to
/// send: below, right, itself, left, above.
pub open spec fn incoming(g: &Grid, rolls: Seq<Vec<PestRoll>>, x: int, y: int) -> Option<Pest> {
    let below = arrival(g, rolls, x, y + 1, x, y);
    let right = arrival(g, rolls, x + 1, y, x, y);
    let itself = arrival(g, rolls, x, y, x, y);
    let left = arrival(g, rolls, x - 1, y, x, y);
    if below is Some {
        below
    } else if right is Some {
        right
    } else if itself is Some {
        itself
    } else if left is Some {
        left
    } else {
        arrival(g, rolls, x, y - 1, x, y)
    }
}

/// The pest on `(x, y)` after a pass: a pest already there ages in place;
/// otherwise whatever arrives.
pub open spec fn pest_after(g: &Grid, rolls: Seq<Vec<PestRoll>>, x: int, y: int) -> Option<Pest> {
    match g.tile(x, y).pest {
        Some(p) => Some(aged_pest(p)),
        None => incoming(g, rolls, x, y),
    }
}

/// The tile `(x, y)` after a pass: its pest as `pest_after` says, and its
/// plant harmed by a pest that was already there.
pub open spec fn pest_tile_after(g: &Grid, rolls: Seq<Vec<PestRoll>>, x: int, y: int) -> Tile {
    let t = g.tile(x, y);
    Tile {
        soil: t.soil,
        plant: match (t.pest, t.plant) {
            (Some(p), Some(pl)) => Some(damaged(pl, aged_pest(p).infestation_level)),
            _ => t.plant,
        },
        pest: pest_after(g, rolls, x, y),
    }
}

/// The neighbours of `(x, y)`, as `neighbours` lists them.
fn neighbour_list(x: usize, y: usize, width: usize, height: usize) -> (r: Vec<(usize, usize)>)
    ensures
        r@ == neighbours(x, y, width, height),
{
    let mut r: Vec<(usize, usize)> = Vec::new();
    if x > 0 {
        r.push((x - 1, y));
    }
    if x < usize::MAX && x + 1 < width {
        r.push((x + 1, y));
    }
    if y > 0 {
        r.push((x, y - 1));
    }
    if y < usize::MAX && y + 1 < height {
        r.push((x, y + 1));
    }
    proof {
        let a = if x > 0 {
            seq![((x - 1) as usize, y)]
        } else {
            Seq::<(usize, usize)>::empty()
        };
        assert(x > 0 ==> a =~= seq![((x - 1) as usize, y)]);
    }
    assert(r@ =~= neighbours(x, y, width, height));
    r
}

/// The pest that the scan of `(sx, sy)` sends to `(tx, ty)`.
fn arrival_from(g: &Grid, rolls: &Vec<Vec<PestRoll>>, sx: usize, sy: usize, tx: usize, ty: usize) -> (r: Option<Pest>)
    requires
        g.is_rectangular(),
        rolls_fit(g, rolls@),
        g.has_tile(tx as int, ty as int),
    ensures
        r == arrival(g, rolls@, sx as int, sy as int, tx as int, ty as int),
{
    if !g.contains_index(sx, sy) {
        return None;
    }
    let target = &g.tiles[ty][tx];
    if target.plant.is_none() || target.pest.is_some() {
        return None;
    }
    if sx == tx && sy == ty {
        let roll = rolls[ty][tx];
        if roll.emerges {
            Some(Pest { pest_type: pest_type_from_index(roll.kind), infestation_level: NEW_PEST_LEVEL })
        } else {
            None
        }
    } else {
        match g.tiles[sy][sx].pest {
            Some(p) => {
                let roll = rolls[sy][sx];
                let ns = neighbour_list(sx, sy, g.tiles[sy].len(), g.tiles.len());
                if roll.spreads && roll.direction < ns.len() && ns[roll.direction].0 == tx
                    && ns[roll.direction].1 == ty {
                    Some(p)
                } else {
                    None
                }
            },
            None => None,
        }
    }
}

/// The pest on `(x, y)` after a pass, read from the grid before the pass.
fn next_pest(g: &Grid, rolls: &Vec<Vec<PestRoll>>, x: usize, y: usize) -> (r: Option<Pest>)
    requires
        g.is_rectangular(),
        rolls_fit(g, rolls@),
        g.has_tile(x as int, y as int),
    ensures
        r == pest_after(g, rolls@, x as int, y as int),
{
    match g.tiles[y][x].pest {
        Some(p) => {
            return Some(Pest { infestation_level: p.infestation_level.saturating_add(INFESTATION_GROWTH), ..p });
        },
        None => {},
    }
    if y < g.tiles.len() - 1 {
        let below = arrival_from(g, rolls, x, y + 1, x, y);
        if below.is_some() {
            return below;
        }
    }
    if x < g.tiles[y].len() - 1 {
        let right = arrival_from(g, rolls, x + 1, y, x, y);
        if right.is_some() {
            return right;
        }
    }
    let itself = arrival_from(g, rolls, x, y, x, y);
    if itself.is_some() {
        return itself;
    }
    if x > 0 {
        let left = arrival_from(g, rolls, x - 1, y, x, y);
        if left.is_some() {
            return left;
        }
    }
    if y > 0 {
        arrival_from(g, rolls, x, y - 1, x, y)
    } else {
        None
    }
}


/// A tile once the pass settles on `next` as its pest: a pest that was
/// already there harms the plant by the level it now has.
pub open spec fn settled(t: Tile, next: Option<Pest>) -> Tile {
    Tile {
        soil: t.soil,
        plant: match (t.pest, t.plant, next) {
            (Some(_), Some(pl), Some(n)) => Some(damaged(pl, n.infestation_level)),
            _ => t.plant,
        },
        pest: next,
    }
}

/// Gives a tile the pest the pass settled on.
fn settle_tile(tile: &mut Tile, next: Option<Pest>)
    ensures
        *final(tile) == settled(*old(tile), next),
{
    if tile.pest.is_some() {
        match next {
            Some(n) => match &mut tile.plant {
                Some(pl) => {
                    let harm = n.infestation_level / 10;
                    pl.health = if pl.health > harm {
                        pl.health - harm
                    } else {
                        0
                    };
                },
                None => {},
            },
            None => {},
        }
    }
    tile.pest = next;
}

/// Gives each tile of a row the pest the pass settled on.
fn settle_row(row: &mut Vec<Tile>, next: &Vec<Option<Pest>>)
    requires
        next@.len() == old(row)@.len(),
    ensures
        final(row)@.len() == old(row)@.len(),
        forall|x: int| 0 <= x < old(row)@.len() ==> #[trigger] final(row)@[x] == settled(old(row)@[x], next@[x]),
{
    let mut x: usize = 0;
    while x < row.len()
        invariant
            row@.len() == old(row)@.len(),
            next@.len() == row@.len(),
            x <= row@.len(),
            forall|j: int| 0 <= j < x ==> #[trigger] row@[j] == settled(old(row)@[j], next@[j]),
            forall|j: int| x <= j < row@.len() ==> #[trigger] row@[j] == old(row)@[j],
        decreases row@.len() - x,
    {
        settle_tile(&mut row[x], next[x]);
        x += 1;
    }
}

/// `after` is `before` once a pest pass with the given rolls has run over
/// it.
pub open spec fn pests_spread(before: &Grid, after: &Grid, rolls: Seq<Vec<PestRoll>>) -> bool {
    &&& before.same_shape(after)
    &&& forall|x: int, y: int| #[trigger] before.has_tile(x, y) ==> after.tile(x, y) == pest_tile_after(before, rolls, x, y)
}

/// Runs the pest pass over a grid. Every decision reads the grid as it was
/// before the pass; the results are gathered first and written afterwards.
/// A pest already on a tile grows and harms the plant there, and may spread
/// to a neighbour that has a plant and no pest; a tile with a plant and no
/// pest may gain a new one.
pub fn spread_pests(grid: &mut Grid, rolls: &Vec<Vec<PestRoll>>)
    requires
        old(grid).is_rectangular(),
        rolls_fit(&*old(grid), rolls@),
    ensures
        pests_spread(&*old(grid), &*final(grid), rolls@),
{
    let mut next: Vec<Vec<Option<Pest>>> = Vec::new();
    let mut y: usize = 0;
    while y < grid.tiles.len()
        invariant
            grid.is_rectangular(),
            rolls_fit(&*grid, rolls@),
            y <= grid.tiles@.len(),
            next@.len() == y,
            forall|r: int| 0 <= r < y ==> #[trigger] next@[r]@.len() == grid.tiles@[r]@.len(),
            forall|c: int, r: int| 0 <= r < y && 0 <= c < grid.tiles@[r]@.len() ==> #[trigger] next@[r]@[c] == pest_after(&*grid, rolls@, c, r),
        decreases grid.tiles@.len() - y,
    {
        let mut row: Vec<Option<Pest>> = Vec::new();
        let mut x: usize = 0;
        while x < grid.tiles[y].len()
            invariant
                grid.is_rectangular(),
                rolls_fit(&*grid, rolls@),
                y < grid.tiles@.len(),
                x <= grid.tiles@[y as int]@.len(),
                row@.len() == x,
                forall|c: int| 0 <= c < x ==> #[trigger] row@[c] == pest_after(&*grid, rolls@, c, y as int),
            decreases grid.tiles@[y as int]@.len() - x,
        {
            row.push(next_pest(&*grid, rolls, x, y));
            x += 1;
        }
        next.push(row);
        y += 1;
    }
    let ghost before = *grid;
    let mut y: usize = 0;
    while y < grid.tiles.len()
        invariant
            grid.tiles@.len() == before.tiles@.len(),
            next@.len() == before.tiles@.len(),
            y <= grid.tiles@.len(),
            forall|r: int| 0 <= r < next@.len() ==> #[trigger] next@[r]@.len() == before.tiles@[r]@.len(),
            forall|r: int| 0 <= r < grid.tiles@.len() ==> #[trigger] grid.tiles@[r]@.len() == before.tiles@[r]@.len(),
            forall|c: int, r: int| 0 <= r < y && 0 <= c < grid.tiles@[r]@.len() ==> #[trigger] grid.tiles@[r]@[c] == settled(before.tiles@[r]@[c], next@[r]@[c]),
            forall|r: int| y <= r < grid.tiles@.len() ==> #[trigger] grid.tiles@[r] == before.tiles@[r],
        decreases grid.tiles@.len() - y,
    {
        settle_row(&mut grid.tiles[y], &next[y]);
        y += 1;
    }
    assert forall|x: int, y: int| #[trigger] old(grid).has_tile(x, y) implies grid.tile(x, y) == pest_tile_after(&*old(grid), rolls@, x, y) by {
        assert(next@[y]@[x] == pest_after(&*old(grid), rolls@, x, y));
    }
}

/// Draws the rolls for one pest pass over a grid: a spread with chance two
/// in ten towards one of the tile's neighbours, each equally likely, and an
/// appearance with chance one in ten, of a kind drawn evenly.
pub fn draw_pest_rolls(grid: &Grid) -> (rolls: Vec<Vec<PestRoll>>)
    ensures
        rolls_fit(grid, rolls@),
        rolls_in_range(grid, rolls@),
{
    let mut rolls: Vec<Vec<PestRoll>> = Vec::new();
    let mut y: usize = 0;
    while y < grid.tiles.len()
        invariant
            y <= grid.tiles@.len(),
            rolls@.len() == y,
            forall|r: int| 0 <= r < y ==> #[trigger] rolls@[r]@.len() == grid.tiles@[r]@.len(),
            forall|c: int, r: int| 0 <= r < y && 0 <= c < grid.tiles@[r]@.len() ==> {
                let roll = #[trigger] rolls@[r]@[c];
                let n = neighbours(c as usize, r as usize, grid.tiles@[r]@.len() as usize, grid.tiles@.len() as usize).len();
                &&& roll.kind < PEST_KINDS
                &&& (if n > 0 { roll.direction < n } else { roll.direction == 0 })
            },
        decreases grid.tiles@.len() - y,
    {
        let width = grid.tiles[y].len();
        let mut row: Vec<PestRoll> = Vec::new();
        let mut x: usize = 0;
        while x < width
            invariant
                y < grid.tiles@.len(),
                width == grid.tiles@[y as int]@.len(),
                x <= width,
                row@.len() == x,
                forall|c: int| 0 <= c < x ==> {
                    let roll = #[trigger] row@[c];
                    let n = neighbours(c as usize, y, width, grid.tiles@.len() as usize).len();
                    &&& roll.kind < PEST_KINDS
                    &&& (if n > 0 { roll.direction < n } else { roll.direction == 0 })
                },
            decreases width - x,
        {
            let count = neighbour_list(x, y, width, grid.tiles.len()).len();
            let direction = if count > 0 {
                random_below(count)
            } else {
                0
            };
            let spreads = random_ratio(2, 10);
            let emerges = random_ratio(1, 10);
            let kind = random_below(PEST_KINDS);
            row.push(PestRoll { spreads, direction, emerges, kind });
            x += 1;
        }
        rolls.push(row);
        y += 1;
    }
    assert forall|x: int, yy: int| #[trigger] grid.has_tile(x, yy) implies {
        let roll = rolls@[yy]@[x];
        let n = neighbours(x as usize, yy as usize, grid.tiles@[yy]@.len() as usize, grid.tiles@.len() as usize).len();
        &&& roll.kind < PEST_KINDS
        &&& (if n > 0 { roll.direction < n } else { roll.direction == 0 })
    } by {
        let roll = rolls@[yy]@[x];
    }
    rolls
}

/// A pest pass keeps every pest where it was (one tick older), puts a new
/// pest only on a tile that held a plant and no pest, and never adds or
/// removes a plant.
pub proof fn lemma_pest_pass_safe(g: &Grid, rolls: Seq<Vec<PestRoll>>, x: int, y: int)
    requires
        g.has_tile(x, y),
    ensures
        g.tile(x, y).pest matches Some(p) ==> pest_tile_after(g, rolls, x, y).pest == Some(aged_pest(p)),
        g.tile(x, y).pest is None && pest_tile_after(g, rolls, x, y).pest is Some ==> g.tile(x, y).plant is Some,
        pest_tile_after(g, rolls, x, y).plant is Some <==> g.tile(x, y).plant is Some,
{
}

} // verus!
