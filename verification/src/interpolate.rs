//! The gap interpolator: turning a sparse candle series into a dense,
//! chart-ready one.
//!
//! For every `step`-spaced timestamp `t` in `[from, to]`, the latest known
//! bucket at or before `t` decides the point: none — nothing is emitted (no
//! synthetic data before any real data); `t` inside the bucket — the known
//! candle verbatim; otherwise a flat candle carrying the bucket's close
//! forward with zero volume.

use vstd::prelude::*;

verus! {

use crate::model::Candle;
use crate::model::TradeOhlcv;
use crate::series::Series;
use crate::series::latest_spec;
use crate::series::lemma_latest_spec;
use vstd::arithmetic::div_mod::lemma_mod_add_multiples_vanish;

/// What the interpolator emits at the timestamp `t`, if anything: the
/// latest known bucket at or before `t` decides.
pub open spec fn interp_point(s: Seq<(u64, Candle)>, t: u64, step: u64) -> Option<Candle> {
    match latest_spec(s, t) {
        Option::None => Option::None,
        Option::Some(p) => if t < p.0 + step {
            Option::Some(p.1)
        } else {
            Option::Some(Candle::flat_spec(p.1.close))
        },
    }
}

/// The dense series over the `step`-spaced timestamps of `[from, to]`: one
/// point per grid timestamp that has a known bucket at or before it.
pub open spec fn interp_seq(s: Seq<(u64, Candle)>, from: u64, to: u64, step: u64) -> Seq<
    TradeOhlcv,
>
    decreases to - from,
{
    if from > to || step == 0 {
        Seq::empty()
    } else {
        let here = match interp_point(s, from, step) {
            Option::None => Seq::<TradeOhlcv>::empty(),
            Option::Some(c) => seq![TradeOhlcv { timestamp: from, candle: c }],
        };
        if from + step > to {
            here
        } else {
            here + interp_seq(s, (from + step) as u64, to, step)
        }
    }
}

/// Fill the gaps of a sparse candle series: one `TradeOhlcv` per
/// `step`-spaced timestamp of `[from_timestamp, to_timestamp]` that has a
/// known bucket at or before it, in increasing timestamp order.
pub fn interpolate_candles(
    from_timestamp: u64,
    to_timestamp: u64,
    step: u64,
    db_candles: &Series,
) -> (r: Vec<TradeOhlcv>)
    requires
        step >= 1,
    ensures
        r@ == interp_seq(db_candles@, from_timestamp, to_timestamp, step),
{
    let ghost s = db_candles@;
    let mut out: Vec<TradeOhlcv> = Vec::new();
    if from_timestamp > to_timestamp {
        return out;
    }
    let mut cur = from_timestamp;
    loop
        invariant_except_break
            interp_seq(s, from_timestamp, to_timestamp, step) == out@ + interp_seq(
                s,
                cur,
                to_timestamp,
                step,
            ),
        invariant
            step >= 1,
            from_timestamp <= cur <= to_timestamp,
            s == db_candles@,
        ensures
            out@ == interp_seq(s, from_timestamp, to_timestamp, step),
        decreases to_timestamp - cur,
    {
        proof {
            use_type_invariant(db_candles);
            lemma_latest_spec(s, cur);
        }
        match db_candles.latest_at_or_before(cur) {
            Option::Some((b, c)) => {
                let candle = if cur - b < step {
                    c
                } else {
                    Candle::flat(c.close)
                };
                out.push(TradeOhlcv { timestamp: cur, candle });
            },
            Option::None => {},
        }
        if step > to_timestamp - cur {
            proof {
                assert(interp_seq(s, cur, to_timestamp, step) == match interp_point(s, cur, step) {
                    Option::None => Seq::<TradeOhlcv>::empty(),
                    Option::Some(c) => seq![TradeOhlcv { timestamp: cur, candle: c }],
                });
            }
            break;
        }
        proof {
            assert(interp_seq(s, cur, to_timestamp, step) == (match interp_point(s, cur, step) {
                Option::None => Seq::<TradeOhlcv>::empty(),
                Option::Some(c) => seq![TradeOhlcv { timestamp: cur, candle: c }],
            }) + interp_seq(s, (cur + step) as u64, to_timestamp, step));
            assert(interp_seq(s, from_timestamp, to_timestamp, step) == (out@ + interp_seq(
                s,
                (cur + step) as u64,
                to_timestamp,
                step,
            )));
        }
        cur = cur + step;
    }
    out
}

/// Every emitted point sits on the grid inside the range, in strictly
/// increasing order, and carries exactly what [`interp_point`] decides for
/// its timestamp.
pub proof fn lemma_interpolation_grid(s: Seq<(u64, Candle)>, from: u64, to: u64, step: u64)
    requires
        step >= 1,
    ensures
        forall|i: int|
            0 <= i < interp_seq(s, from, to, step).len() ==> {
                let p = #[trigger] interp_seq(s, from, to, step)[i];
                &&& from <= p.timestamp <= to
                &&& (p.timestamp - from) % (step as int) == 0
                &&& interp_point(s, p.timestamp, step) == Option::Some(p.candle)
            },
        forall|i: int, j: int|
            0 <= i < j < interp_seq(s, from, to, step).len() ==> interp_seq(
                s,
                from,
                to,
                step,
            )[i].timestamp < interp_seq(s, from, to, step)[j].timestamp,
    decreases to - from,
{
    if from > to {
        return ;
    }
    let out = interp_seq(s, from, to, step);
    let here = match interp_point(s, from, step) {
        Option::None => Seq::<TradeOhlcv>::empty(),
        Option::Some(c) => seq![TradeOhlcv { timestamp: from, candle: c }],
    };
    vstd::arithmetic::div_mod::lemma_small_mod(0, step as nat);
    if from + step > to {
        assert(out == here);
    } else {
        lemma_interpolation_grid(s, (from + step) as u64, to, step);
        let rest = interp_seq(s, (from + step) as u64, to, step);
        assert(out == here + rest);
        assert forall|i: int|
            0 <= i < out.len() implies {
            let p = #[trigger] out[i];
            &&& from <= p.timestamp <= to
            &&& (p.timestamp - from) % (step as int) == 0
            &&& interp_point(s, p.timestamp, step) == Option::Some(p.candle)
        } by {
            if i < here.len() {
                assert(out[i] == here[i]);
            } else {
                assert(out[i] == rest[i - here.len()]);
                lemma_mod_add_multiples_vanish(out[i].timestamp - from - step, step as int);
            }
        }
        assert forall|i: int, j: int|
            0 <= i < j < out.len() implies out[i].timestamp < out[j].timestamp by {
            if i < here.len() {
                assert(out[i] == here[i]);
                assert(out[j] == rest[j - here.len()]);
            } else {
                assert(out[i] == rest[i - here.len()]);
                assert(out[j] == rest[j - here.len()]);
            }
        }
    }
}

/// Interpolation density: a grid timestamp of the range is emitted exactly
/// when some known bucket lies at or before it — no timestamp is skipped
/// once real data exists.
pub proof fn lemma_interpolation_density(
    s: Seq<(u64, Candle)>,
    from: u64,
    to: u64,
    step: u64,
    t: u64,
)
    requires
        step >= 1,
        from <= t <= to,
        (t - from) % (step as int) == 0,
    ensures
        (exists|i: int|
            0 <= i < interp_seq(s, from, to, step).len() && interp_seq(
                s,
                from,
                to,
                step,
            )[i].timestamp == t) <==> latest_spec(s, t) is Some,
    decreases t - from,
{
    let out = interp_seq(s, from, to, step);
    lemma_interpolation_grid(s, from, to, step);
    if exists|i: int| 0 <= i < out.len() && out[i].timestamp == t {
        let i = choose|i: int| 0 <= i < out.len() && out[i].timestamp == t;
        assert(interp_point(s, t, step) == Option::Some(out[i].candle));
    }
    if latest_spec(s, t) is Some {
        if t == from {
            assert(out[0].timestamp == t);
        } else {
            assert(t - from >= step) by {
                if t - from < step {
                    vstd::arithmetic::div_mod::lemma_small_mod((t - from) as nat, step as nat);
                }
            }
            lemma_mod_add_multiples_vanish(t - from - step, step as int);
            lemma_interpolation_density(s, (from + step) as u64, to, step, t);
            let rest = interp_seq(s, (from + step) as u64, to, step);
            let j = choose|j: int| 0 <= j < rest.len() && rest[j].timestamp == t;
            let here_len = out.len() - rest.len();
            assert(out[here_len + j].timestamp == t);
        }
    }
}

/// Flat-fill correctness: at a timestamp outside its seed bucket, the
/// emitted candle is the flat candle of the seed's close — all four price
/// fields carry the close, the volume is zero. Inside the seed bucket the
/// known candle is emitted verbatim.
pub proof fn lemma_flat_fill(s: Seq<(u64, Candle)>, t: u64, step: u64, b: u64, c: Candle)
    requires
        step >= 1,
        latest_spec(s, t) == Some((b, c)),
    ensures
        t >= b + step ==> interp_point(s, t, step) == Option::Some(
            Candle { open: c.close, close: c.close, high: c.close, low: c.close, volume: 0 },
        ),
        t < b + step ==> interp_point(s, t, step) == Option::Some(c),
{
}

} // verus!
