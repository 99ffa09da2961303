use pump_index::aggregate::{merge_candle, trade_price, trade_timestamps};
use pump_index::model::{Candle, PRICE_SCALE, Resolution, TradeInfo};

#[test]
fn price_is_quote_over_base_scaled() {
    // 10 quote units for 10 base units: price 1.0.
    assert_eq!(trade_price(10, 10), Some(1_000_000_000));
    // 6 for 5: price 1.2.
    assert_eq!(trade_price(6, 5), Some(1_200_000_000));
    // Rounding is downward.
    assert_eq!(trade_price(1, 3), Some(333_333_333));
    assert_eq!(trade_price(0, 7), Some(0));
    assert_eq!(PRICE_SCALE, 1_000_000_000);
}

#[test]
fn zero_base_amount_has_no_price() {
    assert_eq!(trade_price(10, 0), None);
    assert_eq!(trade_price(0, 0), None);
}

#[test]
fn large_amounts_do_not_overflow() {
    // The scaled numerator exceeds u64 but fits the price type.
    let p = trade_price(u64::MAX, 1).unwrap();
    assert_eq!(p, u64::MAX as u128 * PRICE_SCALE as u128);
}

#[test]
fn first_trade_populates_every_field() {
    let c = merge_candle(None, 1_000_000_000, 10);
    assert_eq!(
        c,
        Candle { open: 1_000_000_000, close: 1_000_000_000, high: 1_000_000_000, low: 1_000_000_000, volume: 10 }
    );
}

#[test]
fn merge_keeps_open_overwrites_close_tracks_extremes_adds_volume() {
    let first = merge_candle(None, 1_000_000_000, 10);
    let second = merge_candle(Some(first), 1_200_000_000, 5);
    assert_eq!(second.open, 1_000_000_000);
    assert_eq!(second.close, 1_200_000_000);
    assert_eq!(second.high, 1_200_000_000);
    assert_eq!(second.low, 1_000_000_000);
    assert_eq!(second.volume, 15);

    let third = merge_candle(Some(second), 800_000_000, 2);
    assert_eq!(third.open, 1_000_000_000);
    assert_eq!(third.close, 800_000_000);
    assert_eq!(third.high, 1_200_000_000);
    assert_eq!(third.low, 800_000_000);
    assert_eq!(third.volume, 17);
}

#[test]
fn merge_is_monotonic_over_a_trade_sequence() {
    let trades: [(u128, u64); 5] = [
        (1_000_000_000, 10),
        (1_200_000_000, 5),
        (900_000_000, 3),
        (1_500_000_000, 1),
        (1_100_000_000, 7),
    ];
    let mut candle: Option<Candle> = None;
    for (price, amount) in trades {
        let merged = merge_candle(candle, price, amount);
        if let Some(prev) = candle {
            assert!(merged.high >= prev.high);
            assert!(merged.low <= prev.low);
            assert!(merged.volume >= prev.volume);
            assert_eq!(merged.open, prev.open);
        }
        assert_eq!(merged.close, price);
        candle = Some(merged);
    }
    let last = candle.unwrap();
    assert_eq!(last.open, 1_000_000_000);
    assert_eq!(last.close, 1_100_000_000);
    assert_eq!(last.high, 1_500_000_000);
    assert_eq!(last.low, 900_000_000);
    assert_eq!(last.volume, 26);
}

#[test]
fn volume_addition_saturates() {
    let full = Candle { open: 1, close: 1, high: 1, low: 1, volume: u128::MAX - 3 };
    let merged = merge_candle(Some(full), 1, 10);
    assert_eq!(merged.volume, u128::MAX);
}

#[test]
fn trade_timestamps_align_per_resolution() {
    let t = 90_061; // one day, one hour, one minute, one second
    let ts = trade_timestamps(t);
    assert_eq!(ts.len(), 6);
    assert_eq!(ts[0], 90_061); // S1
    assert_eq!(ts[1], 90_060); // M1
    assert_eq!(ts[2], 90_000); // M5
    assert_eq!(ts[3], 90_000); // M15
    assert_eq!(ts[4], 90_000); // H1
    assert_eq!(ts[5], 86_400); // D1
    for (resolution, aligned) in Resolution::all().iter().zip(ts.iter()) {
        assert_eq!(resolution.align(t), *aligned);
    }
}

#[test]
fn trade_info_price_matches_free_function() {
    let info = TradeInfo { mint_acc: "mint".to_owned(), sol_amount: 6, token_amount: 5 };
    assert_eq!(info.price(), Some(1_200_000_000));
    let bad = TradeInfo { mint_acc: "mint".to_owned(), sol_amount: 6, token_amount: 0 };
    assert_eq!(bad.price(), None);
}
