//! The commands a player gives on the command line, and how the words of a
//! command line are read into one.
//!
//! A command is its name, then its positional values, then its options,
//! each option written as `--name value`:
//! `new`, `save FILE`, `load FILE`, `view --from A --to B`,
//! `plant X Y --seed NAME`, `water X Y`, `fertilize X Y --npk-mix N,P,K`,
//! `harvest X Y`, `pesticide X Y`, `market buy ITEM QTY`,
//! `market sell ITEM QTY`, `market view`, `forecast TICKS`.

use crate::numbers::{parse_whole_str, whole_value};
use vstd::prelude::*;

verus! {

/// A parsed command line.
#[derive(Debug)]
pub struct Args {
    pub command: Commands,
}

/// The commands of the game.
#[derive(Debug)]
pub enum Commands {
    /// Starts a new game.
    New,
    /// Saves the game state to a file.
    Save { filename: String },
    /// Loads the game state from a file.
    Load { filename: String },
    /// Views the garden.
    View { from: String, to: String },
    /// Plants a seed.
    Plant { x: u32, y: u32, seed: String },
    /// Waters a tile.
    Water { x: u32, y: u32 },
    /// Fertilizes a tile.
    Fertilize { x: u32, y: u32, npk_mix: String },
    /// Harvests a mature plant.
    Harvest { x: u32, y: u32 },
    /// Applies pesticide to a tile.
    Pesticide { x: u32, y: u32 },
    /// Trades on the market.
    Market(MarketCommand),
    /// Previews the weather of the coming ticks.
    Forecast { ticks: u64 },
}

/// A market command.
#[derive(Debug)]
pub struct MarketCommand {
    pub command: MarketCommands,
}

/// What can be done on the market.
#[derive(Debug)]
pub enum MarketCommands {
    /// Buys an item from the market.
    Buy { item: String, quantity: u32 },
    /// Sells an item to the market.
    Sell { item: String, quantity: u32 },
    /// Shows the market prices.
    View,
}

/// The words of a command line spell no command.
#[derive(Debug, Clone, Copy, PartialEq, Eq, Structural)]
pub struct UsageError;

/// The words of a command line, as character sequences.
pub open spec fn word_views(ws: Seq<String>) -> Seq<Seq<char>> {
    Seq::new(ws.len(), |i: int| ws[i]@)
}

/// The word is a coordinate or count up to `u32::MAX` with the value `v`.
pub open spec fn spells_u32(w: Seq<char>, v: u32) -> bool {
    whole_value(w, u32::MAX as int) == Some(v as int)
}

/// The words name a tile: the command's name and two coordinates.
pub open spec fn spells_tile(w: Seq<Seq<char>>, name: Seq<char>, x: u32, y: u32) -> bool {
    w.len() == 3 && w[0] == name && spells_u32(w[1], x) && spells_u32(w[2], y)
}

/// The words `w` spell the command `c`.
pub open spec fn parsed(w: Seq<Seq<char>>, c: Commands) -> bool {
    match c {
        Commands::New => w.len() == 1 && w[0] == "new"@,
        Commands::Save { filename } => w.len() == 2 && w[0] == "save"@ && filename@ == w[1],
        Commands::Load { filename } => w.len() == 2 && w[0] == "load"@ && filename@ == w[1],
        Commands::View { from, to } => w.len() == 5 && w[0] == "view"@ && w[1] == "--from"@ && from@ == w[2]
            && w[3] == "--to"@ && to@ == w[4],
        Commands::Plant { x, y, seed } => w.len() == 5 && w[0] == "plant"@ && spells_u32(w[1], x) && spells_u32(w[2], y)
            && w[3] == "--seed"@ && seed@ == w[4],
        Commands::Water { x, y } => spells_tile(w, "water"@, x, y),
        Commands::Fertilize { x, y, npk_mix } => w.len() == 5 && w[0] == "fertilize"@ && spells_u32(w[1], x)
            && spells_u32(w[2], y) && w[3] == "--npk-mix"@ && npk_mix@ == w[4],
        Commands::Harvest { x, y } => spells_tile(w, "harvest"@, x, y),
        Commands::Pesticide { x, y } => spells_tile(w, "pesticide"@, x, y),
        Commands::Market(m) => w.len() >= 2 && w[0] == "market"@ && match m.command {
            MarketCommands::Buy { item, quantity } => w.len() == 4 && w[1] == "buy"@ && item@ == w[2] && spells_u32(w[3], quantity),
            MarketCommands::Sell { item, quantity } => w.len() == 4 && w[1] == "sell"@ && item@ == w[2] && spells_u32(w[3], quantity),
            MarketCommands::View => w.len() == 2 && w[1] == "view"@,
        },
        Commands::Forecast { ticks } => w.len() == 2 && w[0] == "forecast"@ && whole_value(w[1], u64::MAX as int) == Some(ticks as int),
    }
}

/// Whether a word is the given text.
fn is_word(w: &String, text: &str) -> (r: bool)
    ensures
        r == (w@ == text@),
{
    let t = text.to_owned();
    w.eq(&t)
}

/// Reads a coordinate or count.
fn read_u32(w: &String) -> (r: Option<u32>)
    ensures
        r matches Some(v) ==> spells_u32(w@, v),
        r is None ==> whole_value(w@, u32::MAX as int) is None,
{
    match parse_whole_str(w.as_str(), u32::MAX as u64) {
        Some(v) => Some(v as u32),
        None => None,
    }
}

/// Reads a tile command's two coordinates.
fn read_tile(words: &Vec<String>) -> (r: Option<(u32, u32)>)
    requires
        words@.len() == 3,
    ensures
        r matches Some((x, y)) ==> spells_u32(words@[1]@, x) && spells_u32(words@[2]@, y),
        r is None ==> forall|x: u32, y: u32| !(spells_u32(words@[1]@, x) && spells_u32(words@[2]@, y)),
{
    match (read_u32(&words[1]), read_u32(&words[2])) {
        (Some(x), Some(y)) => Some((x, y)),
        _ => None,
    }
}

/// The names of the commands differ from each other.
proof fn lemma_names_differ()
    ensures
        "new"@ != "save"@ && "new"@ != "load"@ && "new"@ != "view"@ && "new"@ != "plant"@ && "new"@ != "water"@
            && "new"@ != "fertilize"@ && "new"@ != "harvest"@ && "new"@ != "pesticide"@ && "new"@ != "market"@
            && "new"@ != "forecast"@,
        "save"@ != "load"@ && "save"@ != "view"@ && "save"@ != "plant"@ && "save"@ != "water"@ && "save"@ != "fertilize"@
            && "save"@ != "harvest"@ && "save"@ != "pesticide"@ && "save"@ != "market"@ && "save"@ != "forecast"@,
        "load"@ != "view"@ && "load"@ != "plant"@ && "load"@ != "water"@ && "load"@ != "fertilize"@ && "load"@ != "harvest"@
            && "load"@ != "pesticide"@ && "load"@ != "market"@ && "load"@ != "forecast"@,
        "view"@ != "plant"@ && "view"@ != "water"@ && "view"@ != "fertilize"@ && "view"@ != "harvest"@
            && "view"@ != "pesticide"@ && "view"@ != "market"@ && "view"@ != "forecast"@,
        "plant"@ != "water"@ && "plant"@ != "fertilize"@ && "plant"@ != "harvest"@ && "plant"@ != "pesticide"@
            && "plant"@ != "market"@ && "plant"@ != "forecast"@,
        "water"@ != "fertilize"@ && "water"@ != "harvest"@ && "water"@ != "pesticide"@ && "water"@ != "market"@
            && "water"@ != "forecast"@,
        "fertilize"@ != "harvest"@ && "fertilize"@ != "pesticide"@ && "fertilize"@ != "market"@ && "fertilize"@ != "forecast"@,
        "harvest"@ != "pesticide"@ && "harvest"@ != "market"@ && "harvest"@ != "forecast"@,
        "pesticide"@ != "market"@ && "pesticide"@ != "forecast"@,
        "market"@ != "forecast"@,
        "buy"@ != "sell"@ && "buy"@ != "view"@ && "sell"@ != "view"@,
{
    reveal_strlit("new");
    reveal_strlit("save");
    reveal_strlit("load");
    reveal_strlit("view");
    reveal_strlit("plant");
    reveal_strlit("water");
    reveal_strlit("fertilize");
    reveal_strlit("harvest");
    reveal_strlit("pesticide");
    reveal_strlit("market");
    reveal_strlit("forecast");
    reveal_strlit("buy");
    reveal_strlit("sell");
    assert("new"@.len() == 3 && "save"@.len() == 4 && "load"@.len() == 4 && "view"@.len() == 4);
    assert("plant"@.len() == 5 && "water"@.len() == 5 && "fertilize"@.len() == 9 && "harvest"@.len() == 7);
    assert("pesticide"@.len() == 9 && "market"@.len() == 6 && "forecast"@.len() == 8);
    assert("buy"@.len() == 3 && "sell"@.len() == 4);
    assert("save"@[0] != "load"@[0] && "save"@[0] != "view"@[0] && "load"@[0] != "view"@[0]);
    assert("plant"@[0] != "water"@[0] && "plant"@[0] != "market"@[0] && "water"@[0] != "market"@[0]);
    assert("harvest"@[0] != "forecast"@[0]);
    assert("fertilize"@[0] != "pesticide"@[0] && "fertilize"@[0] != "forecast"@[1]);
    assert("fertilize"@.len() != "forecast"@.len());
    assert("buy"@[0] != "sell"@[0]);
}

/// Reads the words of a command line (without the program's name) into a
/// command. It succeeds exactly when the words spell one.
pub fn parse_args(words: &Vec<String>) -> (r: Result<Args, UsageError>)
    ensures
        r matches Ok(a) ==> parsed(word_views(words@), a.command),
        r is Err ==> forall|c: Commands| !parsed(word_views(words@), c),
{
    let ghost w = word_views(words@);
    proof {
        lemma_names_differ();
    }
    let n = words.len();
    if n == 0 {
        return Err(UsageError);
    }
    assert(w[0] == words@[0]@);
    let name = &words[0];
    if is_word(name, "new") {
        if n == 1 {
            return Ok(Args { command: Commands::New });
        }
        return Err(UsageError);
    }
    if is_word(name, "save") || is_word(name, "load") {
        if n != 2 {
            return Err(UsageError);
        }
        assert(w[1] == words@[1]@);
        let filename = words[1].clone();
        if is_word(name, "save") {
            return Ok(Args { command: Commands::Save { filename } });
        }
        return Ok(Args { command: Commands::Load { filename } });
    }
    if is_word(name, "view") {
        if n == 5 && is_word(&words[1], "--from") && is_word(&words[3], "--to") {
            assert(w[1] == words@[1]@ && w[2] == words@[2]@ && w[3] == words@[3]@ && w[4] == words@[4]@);
            return Ok(Args { command: Commands::View { from: words[2].clone(), to: words[4].clone() } });
        }
        assert(n == 5 ==> w[1] == words@[1]@ && w[3] == words@[3]@);
        return Err(UsageError);
    }
    if is_word(name, "plant") || is_word(name, "fertilize") {
        let option = if is_word(name, "plant") {
            "--seed"
        } else {
            "--npk-mix"
        };
        if n != 5 {
            return Err(UsageError);
        }
        assert(w[1] == words@[1]@ && w[2] == words@[2]@ && w[3] == words@[3]@ && w[4] == words@[4]@);
        if !is_word(&words[3], option) {
            return Err(UsageError);
        }
        let (x, y) = match (read_u32(&words[1]), read_u32(&words[2])) {
            (Some(x), Some(y)) => (x, y),
            _ => return Err(UsageError),
        };
        let value = words[4].clone();
        if is_word(name, "plant") {
            return Ok(Args { command: Commands::Plant { x, y, seed: value } });
        }
        return Ok(Args { command: Commands::Fertilize { x, y, npk_mix: value } });
    }
    if is_word(name, "water") || is_word(name, "harvest") || is_word(name, "pesticide") {
        if n != 3 {
            return Err(UsageError);
        }
        assert(w[1] == words@[1]@ && w[2] == words@[2]@);
        let (x, y) = match read_tile(words) {
            Some(t) => t,
            None => return Err(UsageError),
        };
        if is_word(name, "water") {
            return Ok(Args { command: Commands::Water { x, y } });
        } else if is_word(name, "harvest") {
            return Ok(Args { command: Commands::Harvest { x, y } });
        }
        return Ok(Args { command: Commands::Pesticide { x, y } });
    }
    if is_word(name, "market") {
        if n < 2 {
            return Err(UsageError);
        }
        assert(w[1] == words@[1]@);
        let action = &words[1];
        if is_word(action, "view") {
            if n == 2 {
                return Ok(Args { command: Commands::Market(MarketCommand { command: MarketCommands::View }) });
            }
            return Err(UsageError);
        }
        if !(is_word(action, "buy") || is_word(action, "sell")) || n != 4 {
            return Err(UsageError);
        }
        assert(w[2] == words@[2]@ && w[3] == words@[3]@);
        let quantity = match read_u32(&words[3]) {
            Some(q) => q,
            None => return Err(UsageError),
        };
        let item = words[2].clone();
        if is_word(action, "buy") {
            return Ok(Args { command: Commands::Market(MarketCommand { command: MarketCommands::Buy { item, quantity } }) });
        }
        return Ok(Args { command: Commands::Market(MarketCommand { command: MarketCommands::Sell { item, quantity } }) });
    }
    if is_word(name, "forecast") {
        if n != 2 {
            return Err(UsageError);
        }
        assert(w[1] == words@[1]@);
        return match parse_whole_str(words[1].as_str(), u64::MAX) {
            Some(ticks) => Ok(Args { command: Commands::Forecast { ticks } }),
            None => Err(UsageError),
        };
    }
    Err(UsageError)
}

} // verus!
