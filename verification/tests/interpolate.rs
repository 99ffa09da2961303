use pump_index::interpolate::interpolate_candles;
use pump_index::model::Candle;
use pump_index::series::Series;

fn candle(open: u128, close: u128, high: u128, low: u128, volume: u128) -> Candle {
    Candle { open, close, high, low, volume }
}

fn flat(price: u128) -> Candle {
    candle(price, price, price, price, 0)
}

#[test]
fn one_bucket_forward_fills_the_range() {
    // One populated bucket at t=0 on a 60-second resolution, queried over
    // [0, 180): a real candle, then two flat candles carrying the close.
    let real = candle(1_000_000_000, 1_200_000_000, 1_200_000_000, 1_000_000_000, 15);
    let mut series = Series::new();
    series.insert(0, real);

    let points = interpolate_candles(0, 179, 60, &series);
    assert_eq!(points.len(), 3);
    assert_eq!(points[0].timestamp, 0);
    assert_eq!(points[0].candle, real);
    assert_eq!(points[1].timestamp, 60);
    assert_eq!(points[1].candle, flat(1_200_000_000));
    assert_eq!(points[2].timestamp, 120);
    assert_eq!(points[2].candle, flat(1_200_000_000));
}

#[test]
fn no_point_before_the_first_real_bucket() {
    // Real data starts at t=120; earlier grid timestamps emit nothing.
    let mut series = Series::new();
    series.insert(120, flat(7));
    let points = interpolate_candles(0, 300, 60, &series);
    let timestamps: Vec<u64> = points.iter().map(|p| p.timestamp).collect();
    assert_eq!(timestamps, vec![120, 180, 240, 300]);
}

#[test]
fn no_grid_timestamp_is_skipped_once_data_exists() {
    let mut series = Series::new();
    series.insert(0, flat(1));
    series.insert(300, flat(2));
    let points = interpolate_candles(0, 600, 60, &series);
    let timestamps: Vec<u64> = points.iter().map(|p| p.timestamp).collect();
    assert_eq!(timestamps, vec![0, 60, 120, 180, 240, 300, 360, 420, 480, 540, 600]);
    for window in points.windows(2) {
        assert!(window[0].timestamp < window[1].timestamp);
    }
}

#[test]
fn flat_fill_carries_the_close_with_zero_volume() {
    let real = candle(5, 9, 12, 3, 42);
    let mut series = Series::new();
    series.insert(0, real);
    let points = interpolate_candles(0, 60, 60, &series);
    assert_eq!(points[1].candle, Candle { open: 9, close: 9, high: 9, low: 9, volume: 0 });
}

#[test]
fn timestamps_inside_the_seed_bucket_emit_it_verbatim() {
    // The seed bucket starts at 30; the grid timestamp 60 still falls
    // inside [30, 90), so the real candle is emitted, not a flat one.
    let real = candle(5, 9, 12, 3, 42);
    let mut series = Series::new();
    series.insert(30, real);
    let points = interpolate_candles(0, 120, 60, &series);
    assert_eq!(points.len(), 2);
    assert_eq!(points[0].timestamp, 60);
    assert_eq!(points[0].candle, real);
    assert_eq!(points[1].timestamp, 120);
    assert_eq!(points[1].candle, flat(9));
}

#[test]
fn empty_series_interpolates_to_nothing() {
    let series = Series::new();
    assert_eq!(interpolate_candles(0, 600, 60, &series).len(), 0);
}

#[test]
fn empty_range_interpolates_to_nothing() {
    let mut series = Series::new();
    series.insert(0, flat(1));
    assert_eq!(interpolate_candles(100, 0, 60, &series).len(), 0);
}

#[test]
fn a_range_shorter_than_one_step_has_one_point() {
    let mut series = Series::new();
    series.insert(0, flat(1));
    let points = interpolate_candles(0, 59, 60, &series);
    assert_eq!(points.len(), 1);
    assert_eq!(points[0].timestamp, 0);
}
