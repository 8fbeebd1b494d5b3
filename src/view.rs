//! How the garden is shown: one character per tile.

use crate::garden::{Grid, Tile};
use crate::plant::LifeCycleStage;
use vstd::prelude::*;

verus! {

/// The character for a tile: `.` for no plant, else by the plant's stage,
/// `s` for a seed, `p` for a sprout, `P` for a growing plant and `x` for a
/// withering one. A mature or fruiting plant shows as `P`, or as `M` and
/// `F` where `detailed` asks to tell the stages apart.
pub open spec fn glyph_of(t: Tile, detailed: bool) -> char {
    match t.plant {
        None => '.',
        Some(p) => match p.life_cycle_stage {
            LifeCycleStage::Seed => 's',
            LifeCycleStage::Sprout => 'p',
            LifeCycleStage::Growing => 'P',
            LifeCycleStage::Mature => if detailed {
                'M'
            } else {
                'P'
            },
            LifeCycleStage::Fruiting => if detailed {
                'F'
            } else {
                'P'
            },
            LifeCycleStage::Withering => 'x',
        },
    }
}

/// The character for a tile, as `glyph_of` gives it.
pub fn tile_glyph(t: &Tile, detailed: bool) -> (c: char)
    ensures
        c == glyph_of(*t, detailed),
{
    match &t.plant {
        None => '.',
        Some(p) => match p.life_cycle_stage {
            LifeCycleStage::Seed => 's',
            LifeCycleStage::Sprout => 'p',
            LifeCycleStage::Growing => 'P',
            LifeCycleStage::Mature => if detailed {
                'M'
            } else {
                'P'
            },
            LifeCycleStage::Fruiting => if detailed {
                'F'
            } else {
                'P'
            },
            LifeCycleStage::Withering => 'x',
        },
    }
}

/// The characters of a whole grid, row by row.
pub fn grid_glyphs(g: &Grid, detailed: bool) -> (rows: Vec<Vec<char>>)
    ensures
        rows@.len() == g.tiles@.len(),
        forall|r: int| 0 <= r < rows@.len() ==> (#[trigger] rows@[r])@.len() == g.tiles@[r]@.len(),
        forall|x: int, y: int| #[trigger] g.has_tile(x, y) ==> rows@[y]@[x] == glyph_of(g.tile(x, y), detailed),
{
    let mut rows: Vec<Vec<char>> = Vec::new();
    let mut y: usize = 0;
    while y < g.tiles.len()
        invariant
            y <= g.tiles@.len(),
            rows@.len() == y,
            forall|r: int| 0 <= r < y ==> (#[trigger] rows@[r])@.len() == g.tiles@[r]@.len(),
            forall|x: int, r: int| 0 <= r < y && 0 <= x < g.tiles@[r]@.len() ==> #[trigger] rows@[r]@[x] == glyph_of(g.tiles@[r]@[x], detailed),
        decreases g.tiles@.len() - y,
    {
        let mut row: Vec<char> = Vec::new();
        let mut x: usize = 0;
        while x < g.tiles[y].len()
            invariant
                y < g.tiles@.len(),
                x <= g.tiles@[y as int]@.len(),
                row@.len() == x,
                forall|c: int| 0 <= c < x ==> #[trigger] row@[c] == glyph_of(g.tiles@[y as int]@[c], detailed),
            decreases g.tiles@[y as int]@.len() - x,
        {
            row.push(tile_glyph(&g.tiles[y][x], detailed));
            x += 1;
        }
        rows.push(row);
        y += 1;
    }
    rows
}

} // verus!
