//! The market: a price and a supply/demand factor per item, trades against
//! the inventory and wallet, and the price update of each tick.

use crate::error::GameError;
use crate::ledger::{keys_unique, Ledger};
use crate::rng::random_below;
use crate::UNIT;
use vstd::prelude::*;

verus! {

/// Prices per item and the supply/demand factor of each item sold at least
/// once. Prices are in units of `UNIT` of money per item; a factor of
/// `UNIT` means no effect.
pub struct Market {
    pub items: Ledger<u64>,
    pub supply_demand: Ledger<i64>,
}

/// The lowest price an update leaves.
pub const MIN_PRICE: u64 = 1_000;

/// How far the factor of an item falls for each item sold.
pub const SALE_PRESSURE: i64 = 100;

/// How far a factor recovers towards `UNIT` each tick.
pub const FACTOR_RECOVERY: i64 = 50;

/// Random price changes lie in `-PRICE_JITTER .. PRICE_JITTER`.
pub const PRICE_JITTER: i64 = 500;

impl Default for Market {
    /// The starting market: tomatoes at 10, potatoes at 5 and corn at 15,
    /// and no factors yet.
    fn default() -> (m: Self)
        ensures
            m.items@ == seq![("tomato"@, 100_000u64), ("potato"@, 50_000u64), ("corn"@, 150_000u64)],
            m.supply_demand@ == Seq::<(Seq<char>, i64)>::empty(),
    {
        proof {
            reveal_strlit("tomato");
            reveal_strlit("potato");
            reveal_strlit("corn");
        }
        assert("tomato"@[0] != "potato"@[0] && "tomato"@[0] != "corn"@[0] && "potato"@[0] != "corn"@[0]);
        let mut items: Ledger<u64> = Ledger::new();
        items.insert("tomato", 100_000);
        assert(items@ =~= seq![("tomato"@, 100_000u64)]);
        assert(items.spec_get("potato"@) is None);
        items.insert("potato", 50_000);
        assert(items@ =~= seq![("tomato"@, 100_000u64), ("potato"@, 50_000u64)]);
        assert(items@[0].0 != "corn"@ && items@[1].0 != "corn"@);
        assert(items.spec_get("corn"@) is None);
        items.insert("corn", 150_000);
        assert(items@ =~= seq![("tomato"@, 100_000u64), ("potato"@, 50_000u64), ("corn"@, 150_000u64)]);
        Market { items, supply_demand: Ledger::new() }
    }
}

/// The factor of an item: the one stored, or `UNIT` if none is.
pub open spec fn factor_of(m: &Market, item: Seq<char>) -> int {
    match m.supply_demand.spec_get(item) {
        Some(f) => f as int,
        None => UNIT as int,
    }
}

/// A factor after a sale of `quantity` items, stopping at the smallest `i64`.
pub open spec fn pressed(factor: int, quantity: u32) -> i64 {
    let f = factor - quantity * SALE_PRESSURE;
    if f < i64::MIN {
        i64::MIN
    } else {
        f as i64
    }
}

/// A sale goes through: the market trades the item, the inventory holds at
/// least `quantity` of it, and the proceeds fit in the wallet.
pub open spec fn sale_allowed(inventory: &Ledger<u32>, wallet: u64, market: &Market, item: Seq<char>, quantity: u32) -> Result<(), GameError> {
    match market.items.spec_get(item) {
        None => Err(GameError::ItemNotInMarket),
        Some(price) => match inventory.spec_get(item) {
            None => Err(GameError::ItemNotInInventory),
            Some(held) => if held < quantity {
                Err(GameError::NotEnoughItems)
            } else if wallet + price * quantity > u64::MAX {
                Err(GameError::LimitReached)
            } else {
                Ok(())
            },
        },
    }
}

/// What selling `quantity` of the item named `item` does to the inventory, wallet and
/// market, `_b` before and `_a` after.
pub open spec fn sale_done(inv_b: &Ledger<u32>, inv_a: &Ledger<u32>, wallet_b: u64, wallet_a: u64, market_b: &Market, market_a: &Market, item: Seq<char>, quantity: u32, r: Result<(), GameError>) -> bool {
    &&& r == sale_allowed(inv_b, wallet_b, market_b, item, quantity)
    &&& r is Err ==> *inv_a == *inv_b && wallet_a == wallet_b && *market_a == *market_b
    &&& r is Ok ==> {
        let price = market_b.items.spec_get(item)->0;
        let held = inv_b.spec_get(item)->0;
        &&& wallet_a == wallet_b + quantity * price
        &&& forall|k: Seq<char>| #[trigger] inv_a.spec_get(k) == if k == item {
            Some((held - quantity) as u32)
        } else {
            inv_b.spec_get(k)
        }
        &&& market_a.items == market_b.items
        &&& forall|k: Seq<char>| #[trigger] market_a.supply_demand.spec_get(k) == if k == item {
            Some(pressed(factor_of(market_b, item), quantity))
        } else {
            market_b.supply_demand.spec_get(k)
        }
    }
}

/// Sells `quantity` of an item at its market price. On success the
/// inventory holds `quantity` fewer, the wallet holds `quantity * price`
/// more and the item's factor falls by `quantity * SALE_PRESSURE`. On
/// failure nothing changes.
pub fn sell_item(inventory: &mut Ledger<u32>, wallet: &mut u64, market: &mut Market, item_name: &str, quantity: u32) -> (r: Result<(), GameError>)
    ensures
        sale_done(&*old(inventory), &*final(inventory), *old(wallet), *final(wallet), &*old(market), &*final(market), item_name@, quantity, r),
{
    let price = match market.items.get(item_name) {
        Some(p) => p,
        None => return Err(GameError::ItemNotInMarket),
    };
    let held = match inventory.get(item_name) {
        Some(h) => h,
        None => return Err(GameError::ItemNotInInventory),
    };
    if held < quantity {
        return Err(GameError::NotEnoughItems);
    }
    proof {
        assert(price * quantity <= u64::MAX as int * u32::MAX as int) by (nonlinear_arith)
            requires
                price <= u64::MAX,
                quantity <= u32::MAX,
        ;
    }
    let proceeds: u128 = price as u128 * quantity as u128;
    assert(proceeds == quantity * price) by (nonlinear_arith)
        requires
            proceeds == price * quantity,
    ;
    if *wallet as u128 + proceeds > u64::MAX as u128 {
        return Err(GameError::LimitReached);
    }
    inventory.insert(item_name, held - quantity);
    *wallet = (*wallet as u128 + proceeds) as u64;
    let factor: i64 = match market.supply_demand.get(item_name) {
        Some(f) => f,
        None => UNIT as i64,
    };
    let lowered: i128 = factor as i128 - quantity as i128 * SALE_PRESSURE as i128;
    let lowered: i64 = if lowered < i64::MIN as i128 {
        i64::MIN
    } else {
        lowered as i64
    };
    market.supply_demand.insert(item_name, lowered);
    Ok(())
}

/// A purchase goes through: the market trades the item, the wallet covers
/// the cost, and the inventory can hold the new count.
pub open spec fn purchase_allowed(inventory: &Ledger<u32>, wallet: u64, market: &Market, item: Seq<char>, quantity: u32) -> Result<(), GameError> {
    match market.items.spec_get(item) {
        None => Err(GameError::ItemNotInMarket),
        Some(price) => if price * quantity > wallet {
            Err(GameError::NotEnoughCash)
        } else if held_of(inventory, item) + quantity > u32::MAX {
            Err(GameError::LimitReached)
        } else {
            Ok(())
        },
    }
}

/// How many of an item the inventory holds, none where it has no entry.
pub open spec fn held_of(inventory: &Ledger<u32>, item: Seq<char>) -> int {
    match inventory.spec_get(item) {
        Some(h) => h as int,
        None => 0,
    }
}

/// What buying `quantity` of the item named `item` does to the inventory and wallet, `_b`
/// before and `_a` after.
pub open spec fn purchase_done(inv_b: &Ledger<u32>, inv_a: &Ledger<u32>, wallet_b: u64, wallet_a: u64, market: &Market, item: Seq<char>, quantity: u32, r: Result<(), GameError>) -> bool {
    &&& r == purchase_allowed(inv_b, wallet_b, market, item, quantity)
    &&& r is Err ==> *inv_a == *inv_b && wallet_a == wallet_b
    &&& r is Ok ==> {
        let price = market.items.spec_get(item)->0;
        &&& wallet_a == wallet_b - quantity * price
        &&& forall|k: Seq<char>| #[trigger] inv_a.spec_get(k) == if k == item {
            Some((held_of(inv_b, item) + quantity) as u32)
        } else {
            inv_b.spec_get(k)
        }
    }
}

/// Buys `quantity` of an item at its market price. On success the wallet
/// holds `quantity * price` less and the inventory `quantity` more. On
/// failure nothing changes.
pub fn buy_item(inventory: &mut Ledger<u32>, wallet: &mut u64, market: &Market, item_name: &str, quantity: u32) -> (r: Result<(), GameError>)
    ensures
        purchase_done(&*old(inventory), &*final(inventory), *old(wallet), *final(wallet), market, item_name@, quantity, r),
{
    let price = match market.items.get(item_name) {
        Some(p) => p,
        None => return Err(GameError::ItemNotInMarket),
    };
    proof {
        assert(price * quantity <= u64::MAX as int * u32::MAX as int) by (nonlinear_arith)
            requires
                price <= u64::MAX,
                quantity <= u32::MAX,
        ;
    }
    let cost: u128 = price as u128 * quantity as u128;
    assert(cost == quantity * price) by (nonlinear_arith)
        requires
            cost == price * quantity,
    ;
    if cost > *wallet as u128 {
        return Err(GameError::NotEnoughCash);
    }
    let held: u32 = match inventory.get(item_name) {
        Some(h) => h,
        None => 0,
    };
    if held as u64 + quantity as u64 > u32::MAX as u64 {
        return Err(GameError::LimitReached);
    }
    *wallet = *wallet - cost as u64;
    inventory.insert(item_name, held + quantity);
    Ok(())
}

/// The price after one update: it is scaled by `change + factor` (in units
/// of `UNIT`), rounded down, and kept between `MIN_PRICE` and the largest
/// `u64`.
pub open spec fn repriced(price: u64, change: i64, factor: int) -> u64 {
    let f = change + factor;
    if f <= 0 {
        MIN_PRICE
    } else {
        let p = price * f / (UNIT as int);
        if p < MIN_PRICE {
            MIN_PRICE
        } else if p > u64::MAX {
            u64::MAX
        } else {
            p as u64
        }
    }
}

/// However negative the random change or the factor, an update never takes
/// a price below `MIN_PRICE`.
pub proof fn lemma_price_floor(price: u64, change: i64, factor: int)
    ensures
        repriced(price, change, factor) >= MIN_PRICE,
{
}

/// A factor after one tick of recovery: it rises towards `UNIT` and stops
/// there.
pub open spec fn recovered(factor: i64) -> i64 {
    if factor + FACTOR_RECOVERY > UNIT {
        UNIT as i64
    } else {
        (factor + FACTOR_RECOVERY) as i64
    }
}

/// Some entry before position `n` of an association list has the name `k`.
pub open spec fn listed_before<V>(s: Seq<(Seq<char>, V)>, k: Seq<char>, n: int) -> bool {
    exists|j: int| 0 <= j < n && #[trigger] s[j].0 == k
}

/// The new price of one item.
fn reprice(price: u64, change: i64, factor: i64) -> (r: u64)
    ensures
        r == repriced(price, change, factor as int),
{
    let f: i128 = change as i128 + factor as i128;
    if f <= 0 {
        MIN_PRICE
    } else {
        proof {
            assert(price * f <= u64::MAX as int * 0x1_0000_0000_0000_0000int) by (nonlinear_arith)
                requires
                    price <= u64::MAX,
                    0 < f <= 0x1_0000_0000_0000_0000int,
            ;
        }
        let p: u128 = price as u128 * f as u128 / UNIT as u128;
        if p < MIN_PRICE as u128 {
            MIN_PRICE
        } else if p > u64::MAX as u128 {
            u64::MAX
        } else {
            p as u64
        }
    }
}

/// `after` is `before` once every price has been updated by the given
/// changes (one per item, in the order of `items`) and every stored factor
/// of a traded item has recovered by one tick.
pub open spec fn market_updated(before: &Market, after: &Market, changes: Seq<i64>) -> bool {
    &&& after.items@.len() == before.items@.len()
    &&& forall|i: int| 0 <= i < before.items@.len() ==> #[trigger] after.items@[i] == (
        before.items@[i].0,
        repriced(before.items@[i].1, changes[i], factor_of(before, before.items@[i].0)),
    )
    &&& forall|k: Seq<char>| #[trigger] after.supply_demand.spec_get(k) == match before.supply_demand.spec_get(k) {
        Some(f) => if before.items.spec_get(k) is Some {
            Some(recovered(f))
        } else {
            Some(f)
        },
        None => None,
    }
}

/// Updates every price by the given random changes (one per item, in the
/// order of `items`) and lets every stored factor of a traded item recover.
pub fn update_market_prices_with(market: &mut Market, changes: &Vec<i64>)
    requires
        changes@.len() == old(market).items@.len(),
    ensures
        market_updated(&*old(market), &*final(market), changes@),
{
    proof {
        use_type_invariant(&market.items);
    }
    let ghost start = *market;
    let mut i: usize = 0;
    while i < market.items.len()
        invariant
            market.items@.len() == start.items@.len(),
            changes@.len() == start.items@.len(),
            i <= market.items@.len(),
            keys_unique(start.items@),
            forall|j: int| 0 <= j < i ==> #[trigger] market.items@[j] == (
                start.items@[j].0,
                repriced(start.items@[j].1, changes@[j], factor_of(&start, start.items@[j].0)),
            ),
            forall|j: int| i <= j < market.items@.len() ==> #[trigger] market.items@[j] == start.items@[j],
            forall|k: Seq<char>| #[trigger] market.supply_demand.spec_get(k) == match start.supply_demand.spec_get(k) {
                Some(f) => if listed_before(start.items@, k, i as int) {
                    Some(recovered(f))
                } else {
                    Some(f)
                },
                None => None,
            },
        decreases market.items@.len() - i,
    {
        let name = market.items.name_at(i).clone();
        let price = market.items.value_at(i);
        let stored = market.supply_demand.get(name.as_str());
        proof {
            assert(name@ == start.items@[i as int].0);
            assert forall|j: int| 0 <= j < i implies #[trigger] start.items@[j].0 != name@ by {
                assert(start.items@[i as int].0 == name@);
            }
        }
        let factor: i64 = match stored {
            Some(f) => f,
            None => UNIT as i64,
        };
        market.items.set_at(i, reprice(price, changes[i], factor));
        match stored {
            Some(f) => {
                let up: i64 = if f as i128 + FACTOR_RECOVERY as i128 > UNIT as i128 {
                    UNIT as i64
                } else {
                    f + FACTOR_RECOVERY
                };
                market.supply_demand.insert(name.as_str(), up);
            },
            None => {},
        }
        proof {
            assert forall|k: Seq<char>| #[trigger] listed_before(start.items@, k, i + 1) <==> (
                listed_before(start.items@, k, i as int) || k == name@) by {
                if k == name@ {
                    assert(start.items@[i as int].0 == k);
                }
                if listed_before(start.items@, k, i + 1) && k != name@ {
                    let j = choose|j: int| 0 <= j < i + 1 && #[trigger] start.items@[j].0 == k;
                    assert(j < i);
                }
            }
        }
        i += 1;
    }
    proof {
        assert forall|k: Seq<char>| #[trigger] listed_before(start.items@, k, start.items@.len() as int) <==> start.items.spec_get(k) is Some by {
        }
    }
}

/// `changes` holds `count` price changes, each in
/// `-PRICE_JITTER .. PRICE_JITTER`.
pub open spec fn changes_in_range(changes: Seq<i64>, count: nat) -> bool {
    &&& changes.len() == count
    &&& forall|i: int| 0 <= i < changes.len() ==> -PRICE_JITTER <= #[trigger] changes[i] < PRICE_JITTER
}

/// Draws `count` price changes, each uniform in
/// `-PRICE_JITTER .. PRICE_JITTER`.
pub fn draw_price_changes(count: usize) -> (changes: Vec<i64>)
    ensures
        changes_in_range(changes@, count as nat),
{
    let mut changes: Vec<i64> = Vec::new();
    let mut i: usize = 0;
    while i < count
        invariant
            changes@.len() == i,
            i <= count,
            forall|j: int| 0 <= j < i ==> -PRICE_JITTER <= #[trigger] changes@[j] < PRICE_JITTER,
        decreases count - i,
    {
        let draw = random_below(2 * PRICE_JITTER as usize);
        changes.push(draw as i64 - PRICE_JITTER);
        i += 1;
    }
    changes
}

/// Updates every price with a fresh random change in
/// `-PRICE_JITTER .. PRICE_JITTER`. No price falls below `MIN_PRICE`.
pub fn update_market_prices(market: &mut Market)
    ensures
        exists|changes: Seq<i64>| #[trigger] changes_in_range(changes, old(market).items@.len()) && market_updated(&*old(market), &*final(market), changes),
        forall|i: int| 0 <= i < old(market).items@.len() ==> (#[trigger] final(market).items@[i]).1 >= MIN_PRICE,
{
    let changes = draw_price_changes(market.items.len());
    update_market_prices_with(market, &changes);
    assert(changes_in_range(changes@, old(market).items@.len()));
}

/// A flat quote of 10 for any item, whatever the market holds.
pub fn get_market_price(_item: &str) -> (r: u64)
    ensures
        r == 10 * UNIT,
{
    10 * UNIT as u64
}

} // verus!
