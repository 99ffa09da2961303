//! Per-connection streaming: the bootstrap window, the live-tick flattening
//! rule, and the session's state machine.
//!
//! A session first streams a bootstrap batch (the interpolated recent
//! history), then turns live: on every tick it sends either the stored
//! candle of the current bucket, or a flat candle carried forward from the
//! last close. A failed send or a disconnect terminates the session for
//! good; the unverified shell runs the loop and owns the transport.

use vstd::prelude::*;

verus! {

use crate::model::Candle;
use crate::model::Resolution;
use crate::model::TradeOhlcv;

/// How many buckets of history a bootstrap batch looks back.
pub const POINTS_PER_CHART: u64 = 100;

/// The `[from, to]` window a session bootstraps with: `to` is now, `from`
/// is the aligned start of the bucket `POINTS_PER_CHART` steps back
/// (saturating at the epoch).
pub fn bootstrap_range(resolution: Resolution, now: u64) -> (r: (u64, u64))
    ensures
        r.1 == now,
        r.0 == resolution.align_spec(
            if now >= POINTS_PER_CHART * resolution.width() {
                (now - POINTS_PER_CHART * resolution.width()) as u64
            } else {
                0
            },
        ),
        r.0 <= now,
{
    let step = resolution.to_seconds();
    let lookback = POINTS_PER_CHART * step;
    let start = if now >= lookback {
        now - lookback
    } else {
        0
    };
    (resolution.align(start), now)
}

/// The candle a live tick sends: the stored candle when the current aligned
/// bucket is the stored bucket, else a flat candle carrying the stored
/// close forward.
pub open spec fn live_point_spec(
    now_aligned: u64,
    last_ts: u64,
    last_candle: Candle,
    step: u64,
) -> Candle {
    if last_ts <= now_aligned < last_ts + step {
        last_candle
    } else {
        Candle::flat_spec(last_candle.close)
    }
}

/// Build the point one live tick sends, stamped with the current aligned
/// bucket start.
pub fn live_point(now_aligned: u64, last_ts: u64, last_candle: Candle, step: u64) -> (r:
    TradeOhlcv)
    ensures
        r.timestamp == now_aligned,
        r.candle == live_point_spec(now_aligned, last_ts, last_candle, step),
{
    let candle = if now_aligned >= last_ts && now_aligned - last_ts < step {
        last_candle
    } else {
        Candle::flat(last_candle.close)
    };
    TradeOhlcv { timestamp: now_aligned, candle }
}

/// The phase a streaming session is in.
#[derive(Clone, Copy, Debug, PartialEq, Eq, Structural)]
pub enum SessionState {
    /// The recent history is being interpolated and streamed.
    Bootstrap,
    /// Live ticks are being sent.
    Live,
    /// A send failed or the client left; the session never resumes.
    Terminated,
}

/// What happened to a session since its last transition.
#[derive(Clone, Copy, Debug, PartialEq, Eq, Structural)]
pub enum SessionEvent {
    /// The whole bootstrap batch was sent.
    BootstrapSent,
    /// One live point was sent.
    PointSent,
    /// A send failed.
    SendFailed,
    /// The client disconnected.
    Disconnected,
}

/// The session's transition function: bootstrap turns live once its batch
/// is out, any failed send or disconnect terminates, and a terminated
/// session stays terminated.
pub open spec fn session_next(state: SessionState, event: SessionEvent) -> SessionState {
    match state {
        SessionState::Terminated => SessionState::Terminated,
        _ => match event {
            SessionEvent::SendFailed => SessionState::Terminated,
            SessionEvent::Disconnected => SessionState::Terminated,
            SessionEvent::BootstrapSent => SessionState::Live,
            SessionEvent::PointSent => state,
        },
    }
}

/// Advance a session's state by one event.
pub fn session_step(state: SessionState, event: SessionEvent) -> (r: SessionState)
    ensures
        r == session_next(state, event),
{
    match state {
        SessionState::Terminated => SessionState::Terminated,
        _ => match event {
            SessionEvent::SendFailed => SessionState::Terminated,
            SessionEvent::Disconnected => SessionState::Terminated,
            SessionEvent::BootstrapSent => SessionState::Live,
            SessionEvent::PointSent => state,
        },
    }
}

/// A terminated session never leaves `Terminated`, whatever else happens.
pub proof fn lemma_terminated_is_final(event: SessionEvent)
    ensures
        session_next(SessionState::Terminated, event) == SessionState::Terminated,
{
}

} // verus!
