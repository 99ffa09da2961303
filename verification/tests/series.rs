use pump_index::model::Candle;
use pump_index::series::Series;

fn flat(price: u128) -> Candle {
    Candle { open: price, close: price, high: price, low: price, volume: 0 }
}

#[test]
fn new_series_is_empty() {
    let s = Series::new();
    assert_eq!(s.len(), 0);
    assert_eq!(s.get(0), None);
    assert_eq!(s.latest_at_or_before(u64::MAX), None);
}

#[test]
fn insert_keeps_entries_sorted() {
    let mut s = Series::new();
    s.insert(120, flat(3));
    s.insert(0, flat(1));
    s.insert(60, flat(2));
    assert_eq!(s.len(), 3);
    assert_eq!(s.entry(0), (0, flat(1)));
    assert_eq!(s.entry(1), (60, flat(2)));
    assert_eq!(s.entry(2), (120, flat(3)));
}

#[test]
fn insert_replaces_an_existing_bucket() {
    let mut s = Series::new();
    s.insert(60, flat(2));
    s.insert(60, flat(9));
    assert_eq!(s.len(), 1);
    assert_eq!(s.get(60), Some(flat(9)));
}

#[test]
fn get_finds_exact_buckets_only() {
    let mut s = Series::new();
    s.insert(60, flat(2));
    assert_eq!(s.get(60), Some(flat(2)));
    assert_eq!(s.get(59), None);
    assert_eq!(s.get(61), None);
}

#[test]
fn latest_at_or_before_picks_the_greatest_bucket() {
    let mut s = Series::new();
    s.insert(0, flat(1));
    s.insert(60, flat(2));
    s.insert(180, flat(4));
    assert_eq!(s.latest_at_or_before(0), Some((0, flat(1))));
    assert_eq!(s.latest_at_or_before(59), Some((0, flat(1))));
    assert_eq!(s.latest_at_or_before(60), Some((60, flat(2))));
    assert_eq!(s.latest_at_or_before(179), Some((60, flat(2))));
    assert_eq!(s.latest_at_or_before(u64::MAX), Some((180, flat(4))));
}

#[test]
fn latest_at_or_before_empty_before_first_bucket() {
    let mut s = Series::new();
    s.insert(60, flat(2));
    assert_eq!(s.latest_at_or_before(59), None);
}
