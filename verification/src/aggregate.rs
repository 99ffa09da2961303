//! Turning a raw trade into per-resolution candle merges.
//!
//! A trade's price is the quote amount divided by the base amount, kept as a
//! fixed-point integer. A trade with base amount zero has no finite price and
//! is rejected as a whole. Merging a trade into a bucket follows the rules:
//! first price wins for `open`, last price wins for `close`, `high`/`low`
//! take the running extremes, and `volume` accumulates the base amounts.

use vstd::prelude::*;

verus! {

use crate::model::Candle;
use crate::model::PRICE_SCALE;
use crate::model::Resolution;
use crate::model::TradeInfo;
use crate::model::resolutions;
use vstd::arithmetic::div_mod::lemma_div_is_ordered;
use vstd::arithmetic::mul::lemma_mul_upper_bound;

/// Fixed-point price of a trade: `sol_amount * PRICE_SCALE / token_amount`,
/// meaningful only when `token_amount > 0`.
pub open spec fn price_spec(sol_amount: u64, token_amount: u64) -> int
    recommends
        token_amount > 0,
{
    (sol_amount * PRICE_SCALE) / (token_amount as int)
}

/// Compute a trade's fixed-point price, or `None` for a trade whose base
/// amount is zero (no finite price).
pub fn trade_price(sol_amount: u64, token_amount: u64) -> (r: Option<u128>)
    ensures
        r is Some <==> token_amount > 0,
        token_amount > 0 ==> r == Some(price_spec(sol_amount, token_amount) as u128),
{
    if token_amount == 0 {
        Option::None
    } else {
        proof {
            lemma_mul_upper_bound(
                sol_amount as int,
                u64::MAX as int,
                PRICE_SCALE as int,
                PRICE_SCALE as int,
            );
            lemma_div_is_ordered(
                sol_amount * PRICE_SCALE,
                u64::MAX * PRICE_SCALE,
                token_amount as int,
            );
        }
        Option::Some((sol_amount as u128) * (PRICE_SCALE as u128) / (token_amount as u128))
    }
}

impl TradeInfo {
    /// The trade's fixed-point price, or `None` when the base amount is zero.
    pub fn price(&self) -> (r: Option<u128>)
        ensures
            r is Some <==> self.token_amount > 0,
            self.token_amount > 0 ==> r == Some(
                price_spec(self.sol_amount, self.token_amount) as u128,
            ),
    {
        trade_price(self.sol_amount, self.token_amount)
    }
}

/// Addition on volumes, capped at the largest representable volume.
pub open spec fn volume_add(volume: u128, amount: u64) -> u128 {
    if volume + amount > u128::MAX {
        u128::MAX
    } else {
        (volume + amount) as u128
    }
}

/// The candle a bucket holds after one trade of the given price and base
/// amount lands in it: `prev` is the bucket's candle before the trade, or
/// `None` for a bucket never traded in.
pub open spec fn merged_candle(prev: Option<Candle>, price: u128, amount: u64) -> Candle {
    match prev {
        Option::None => Candle {
            open: price,
            close: price,
            high: price,
            low: price,
            volume: amount as u128,
        },
        Option::Some(c) => Candle {
            open: c.open,
            close: price,
            high: if price > c.high { price } else { c.high },
            low: if price < c.low { price } else { c.low },
            volume: volume_add(c.volume, amount),
        },
    }
}

/// Merge one trade into a bucket's candle.
pub fn merge_candle(prev: Option<Candle>, price: u128, amount: u64) -> (r: Candle)
    ensures
        r == merged_candle(prev, price, amount),
{
    match prev {
        Option::None => Candle {
            open: price,
            close: price,
            high: price,
            low: price,
            volume: amount as u128,
        },
        Option::Some(c) => {
            let volume = if c.volume > u128::MAX - (amount as u128) {
                u128::MAX
            } else {
                c.volume + (amount as u128)
            };
            Candle {
                open: c.open,
                close: price,
                high: if price > c.high { price } else { c.high },
                low: if price < c.low { price } else { c.low },
                volume,
            }
        },
    }
}

/// Merging preserves a candle's well-formedness.
pub proof fn lemma_merged_well_formed(prev: Option<Candle>, price: u128, amount: u64)
    requires
        prev is Some ==> prev.unwrap().well_formed(),
    ensures
        merged_candle(prev, price, amount).well_formed(),
{
}

/// The candle a bucket holds after a whole sequence of trades, each a
/// `(price, base amount)` pair, lands in it in order.
pub open spec fn candle_after(trades: Seq<(u128, u64)>) -> Option<Candle>
    decreases trades.len(),
{
    if trades.len() == 0 {
        Option::None
    } else {
        Option::Some(
            merged_candle(candle_after(trades.drop_last()), trades.last().0, trades.last().1),
        )
    }
}

/// A bucket some trade has landed in holds a candle.
pub proof fn lemma_candle_after_some(trades: Seq<(u128, u64)>)
    requires
        trades.len() >= 1,
    ensures
        candle_after(trades) is Some,
        candle_after(trades).unwrap().well_formed(),
    decreases trades.len(),
{
    if trades.len() > 1 {
        lemma_candle_after_some(trades.drop_last());
    }
    lemma_merged_well_formed(candle_after(trades.drop_last()), trades.last().0, trades.last().1);
}

/// The close of a bucket is the price of the most recently applied trade.
pub proof fn lemma_close_is_last_price(trades: Seq<(u128, u64)>)
    requires
        trades.len() >= 1,
    ensures
        candle_after(trades) is Some,
        candle_after(trades).unwrap().close == trades.last().0,
{
    lemma_candle_after_some(trades);
}

/// The open of a bucket is the price of the first trade that landed in it,
/// and never changes afterwards.
pub proof fn lemma_open_is_first_price(trades: Seq<(u128, u64)>)
    requires
        trades.len() >= 1,
    ensures
        candle_after(trades) is Some,
        candle_after(trades).unwrap().open == trades.first().0,
    decreases trades.len(),
{
    lemma_candle_after_some(trades);
    if trades.len() > 1 {
        lemma_open_is_first_price(trades.drop_last());
        assert(trades.drop_last().first() == trades.first());
    }
}

/// Across any two points of one bucket's trade history, `high` never falls,
/// `low` never rises, `volume` never falls, and `open` never changes.
pub proof fn lemma_merge_monotonic(trades: Seq<(u128, u64)>, i: int, j: int)
    requires
        1 <= i <= j <= trades.len(),
    ensures
        candle_after(trades.take(i)) is Some,
        candle_after(trades.take(j)) is Some,
        ({
            let a = candle_after(trades.take(i)).unwrap();
            let b = candle_after(trades.take(j)).unwrap();
            &&& a.high <= b.high
            &&& b.low <= a.low
            &&& a.volume <= b.volume
            &&& b.open == a.open
        }),
    decreases j - i,
{
    lemma_candle_after_some(trades.take(i));
    lemma_candle_after_some(trades.take(j));
    if i < j {
        lemma_merge_monotonic(trades, i, j - 1);
        assert(trades.take(j).drop_last() =~= trades.take(j - 1));
    }
}

/// Per-resolution aligned bucket starts for one trade's event timestamp, in
/// the order of [`resolutions`].
pub fn trade_timestamps(timestamp: u64) -> (r: Vec<u64>)
    ensures
        r@.len() == resolutions().len(),
        forall|i: int|
            0 <= i < r@.len() ==> r@[i] == resolutions()[i].align_spec(timestamp),
{
    let all = Resolution::all();
    let mut r: Vec<u64> = Vec::new();
    let mut idx: usize = 0;
    while idx < 6
        invariant
            idx <= 6,
            all@ == resolutions(),
            r@.len() == idx,
            forall|i: int| 0 <= i < idx ==> r@[i] == resolutions()[i].align_spec(timestamp),
        decreases 6 - idx,
    {
        let aligned = all[idx].align(timestamp);
        r.push(aligned);
        idx = idx + 1;
    }
    r
}

} // verus!
