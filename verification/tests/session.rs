use pump_index::model::{Candle, Resolution, TokenMetadata};
use pump_index::model::metadata_from_row;
use pump_index::session::{
    POINTS_PER_CHART, SessionEvent, SessionState, bootstrap_range, live_point, session_step,
};
use pump_index::tier::ts_name;

fn candle(open: u128, close: u128, high: u128, low: u128, volume: u128) -> Candle {
    Candle { open, close, high, low, volume }
}

#[test]
fn bootstrap_window_looks_back_a_chart_of_buckets() {
    assert_eq!(POINTS_PER_CHART, 100);
    // 100 one-minute buckets back from t=7000 is t=1000, aligned to 960.
    assert_eq!(bootstrap_range(Resolution::M1, 7000), (960, 7000));
    // Near the epoch the window saturates at zero.
    assert_eq!(bootstrap_range(Resolution::H1, 5000), (0, 5000));
}

#[test]
fn live_tick_sends_the_stored_candle_inside_its_bucket() {
    let stored = candle(1, 2, 3, 1, 9);
    let point = live_point(120, 120, stored, 60);
    assert_eq!(point.timestamp, 120);
    assert_eq!(point.candle, stored);
}

#[test]
fn live_tick_flattens_outside_the_stored_bucket() {
    let stored = candle(1, 2, 3, 1, 9);
    let point = live_point(240, 120, stored, 60);
    assert_eq!(point.timestamp, 240);
    assert_eq!(point.candle, Candle { open: 2, close: 2, high: 2, low: 2, volume: 0 });
}

#[test]
fn session_bootstraps_then_turns_live() {
    let s = SessionState::Bootstrap;
    let s = session_step(s, SessionEvent::BootstrapSent);
    assert_eq!(s, SessionState::Live);
    let s = session_step(s, SessionEvent::PointSent);
    assert_eq!(s, SessionState::Live);
}

#[test]
fn failed_sends_and_disconnects_terminate() {
    assert_eq!(
        session_step(SessionState::Bootstrap, SessionEvent::SendFailed),
        SessionState::Terminated
    );
    assert_eq!(
        session_step(SessionState::Live, SessionEvent::SendFailed),
        SessionState::Terminated
    );
    assert_eq!(
        session_step(SessionState::Live, SessionEvent::Disconnected),
        SessionState::Terminated
    );
}

#[test]
fn terminated_sessions_never_resume() {
    for event in [
        SessionEvent::BootstrapSent,
        SessionEvent::PointSent,
        SessionEvent::SendFailed,
        SessionEvent::Disconnected,
    ] {
        assert_eq!(session_step(SessionState::Terminated, event), SessionState::Terminated);
    }
}

#[test]
fn missing_row_fields_fall_back_to_placeholders() {
    let md = metadata_from_row(Some("Token".to_owned()), None, None);
    assert_eq!(
        md,
        TokenMetadata { name: "Token".to_owned(), symbol: "NAN".to_owned(), uri: "unknown".to_owned() }
    );
    let all_missing = metadata_from_row(None, None, None);
    assert_eq!(all_missing.name, "unknown");
    assert_eq!(all_missing.symbol, "NAN");
    assert_eq!(all_missing.uri, "unknown");
}

#[test]
fn trimming_strips_trailing_nul_padding_only() {
    let padded = TokenMetadata {
        name: "Token\0\0\0".to_owned(),
        symbol: "T\0K\0".to_owned(),
        uri: "\0\0".to_owned(),
    };
    let trimmed = padded.trimmed();
    assert_eq!(trimmed.name, "Token");
    assert_eq!(trimmed.symbol, "T\0K");
    assert_eq!(trimmed.uri, "");

    let clean = TokenMetadata {
        name: "Token".to_owned(),
        symbol: "TOK".to_owned(),
        uri: "uri://a".to_owned(),
    };
    let untouched = clean.trimmed();
    assert_eq!(untouched, clean);
}

#[test]
fn cache_series_names_spell_out_the_key() {
    assert_eq!(ts_name("abc", Resolution::M1, "open"), "trade_abc_M1_open");
    assert_eq!(ts_name("x", Resolution::M15, "volume"), "trade_x_M15_volume");
}
