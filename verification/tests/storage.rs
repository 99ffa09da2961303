use pump_index::aggregate::trade_timestamps;
use pump_index::mem_tier::MemTier;
use pump_index::model::{Resolution, TokenMetadata, TradeInfo};
use pump_index::pump_handler::PumpHandler;
use pump_index::storage::{RETENTION_SECONDS, Storage, StoreError};
use pump_index::tier::{CandlesStorage, MetadataStorage};

fn trade(mint: &str, sol: u64, token: u64) -> TradeInfo {
    TradeInfo { mint_acc: mint.to_owned(), sol_amount: sol, token_amount: token }
}

fn metadata(name: &str, symbol: &str, uri: &str) -> TokenMetadata {
    TokenMetadata { name: name.to_owned(), symbol: symbol.to_owned(), uri: uri.to_owned() }
}

#[test]
fn retention_is_one_day() {
    assert_eq!(RETENTION_SECONDS, 86_400);
}

#[test]
fn one_bucket_aggregates_two_trades() {
    // Trades at t=0 (price 1.0, amount 10) and t=30 (price 1.2, amount 5)
    // land in one bucket of the 60-second resolution.
    let mut storage = Storage::new(MemTier::new(), MemTier::new());
    PumpHandler::handle_trade(&mut storage, trade("mint", 10, 10), 0).unwrap();
    PumpHandler::handle_trade(&mut storage, trade("mint", 6, 5), 30).unwrap();

    let series = storage.trades_since("mint", 0, Resolution::M1, 100).unwrap();
    assert_eq!(series.len(), 1);
    let (bucket, candle) = series.entry(0);
    assert_eq!(bucket, 0);
    assert_eq!(candle.open, 1_000_000_000);
    assert_eq!(candle.close, 1_200_000_000);
    assert_eq!(candle.high, 1_200_000_000);
    assert_eq!(candle.low, 1_000_000_000);
    assert_eq!(candle.volume, 15);
}

#[test]
fn trades_spread_over_every_resolution() {
    let mut storage = Storage::new(MemTier::new(), MemTier::new());
    PumpHandler::handle_trade(&mut storage, trade("mint", 10, 10), 90_061).unwrap();
    let expected = trade_timestamps(90_061);
    for (resolution, bucket) in Resolution::all().iter().zip(expected.iter()) {
        let series = storage.trades_since("mint", 0, *resolution, 100_000).unwrap();
        assert_eq!(series.len(), 1, "resolution {:?}", resolution);
        assert_eq!(series.entry(0).0, *bucket);
    }
}

#[test]
fn zero_base_amount_is_rejected_without_any_write() {
    let mut storage = Storage::new(MemTier::new(), MemTier::new());
    let r = PumpHandler::handle_trade(&mut storage, trade("mint", 10, 0), 0);
    assert_eq!(r, Err(StoreError::Validation));
    for resolution in Resolution::all() {
        let series = storage.trades_since("mint", 0, resolution, 100).unwrap();
        assert_eq!(series.len(), 0);
    }
    assert_eq!(storage.last_trade("mint", Resolution::M1), Err(StoreError::TierUnavailable));
}

#[test]
fn rejection_leaves_earlier_buckets_as_they_were() {
    let mut storage = Storage::new(MemTier::new(), MemTier::new());
    PumpHandler::handle_trade(&mut storage, trade("mint", 10, 10), 0).unwrap();
    let before = storage.trades_since("mint", 0, Resolution::M1, 100).unwrap();
    let r = PumpHandler::handle_trade(&mut storage, trade("mint", 99, 0), 30);
    assert_eq!(r, Err(StoreError::Validation));
    let after = storage.trades_since("mint", 0, Resolution::M1, 100).unwrap();
    assert_eq!(before.len(), after.len());
    assert_eq!(before.entry(0), after.entry(0));
}

#[test]
fn reads_fall_back_to_the_durable_tier_unchanged() {
    // Both tiers see the same writes; then the cache starts failing.
    let mut cache = MemTier::new();
    let mut db = MemTier::new();
    let timestamps = trade_timestamps(30);
    cache.insert_trade(&timestamps, &trade("mint", 6, 5)).unwrap();
    db.insert_trade(&timestamps, &trade("mint", 6, 5)).unwrap();

    let direct = db.trades_since_with_one_previous("mint", 0, Resolution::M1).unwrap();
    cache.set_available(false);
    let storage = Storage::new(db, cache);

    let fallback = storage.trades_since("mint", 0, Resolution::M1, 100).unwrap();
    assert_eq!(fallback.len(), direct.len());
    for i in 0..direct.len() {
        assert_eq!(fallback.entry(i), direct.entry(i));
    }

    let last = storage.last_trade("mint", Resolution::M1).unwrap();
    assert_eq!(last, (0, direct.entry(0).1));
}

#[test]
fn cache_answers_first_within_the_retention_horizon() {
    // Divergent tiers expose which one answered.
    let mut cache = MemTier::new();
    let mut db = MemTier::new();
    cache.insert_trade(&trade_timestamps(0), &trade("mint", 10, 10)).unwrap();
    db.insert_trade(&trade_timestamps(0), &trade("mint", 6, 5)).unwrap();
    let storage = Storage::new(db, cache);

    // Within the horizon the cache's candle comes back.
    let within = storage.trades_since("mint", 0, Resolution::M1, 100).unwrap();
    assert_eq!(within.entry(0).1.close, 1_000_000_000);

    // Outside the horizon the durable tier answers directly.
    let outside = storage
        .trades_since("mint", 0, Resolution::M1, 2 * RETENTION_SECONDS)
        .unwrap();
    assert_eq!(outside.entry(0).1.close, 1_200_000_000);
}

#[test]
fn durable_range_read_carries_one_previous_bucket() {
    let mut db = MemTier::new();
    db.insert_trade(&trade_timestamps(0), &trade("mint", 10, 10)).unwrap();
    db.insert_trade(&trade_timestamps(65), &trade("mint", 6, 5)).unwrap();
    db.insert_trade(&trade_timestamps(360), &trade("mint", 9, 3)).unwrap();

    // Reading from t=300 brings the range plus the seed bucket at 60.
    let series = db.trades_since_with_one_previous("mint", 300, Resolution::M1).unwrap();
    assert_eq!(series.len(), 2);
    assert_eq!(series.entry(0).0, 60);
    assert_eq!(series.entry(1).0, 360);
}

#[test]
fn seeded_range_read_without_earlier_buckets_is_plain() {
    let mut db = MemTier::new();
    db.insert_trade(&trade_timestamps(65), &trade("mint", 6, 5)).unwrap();
    let series = db.trades_since_with_one_previous("mint", 0, Resolution::M1).unwrap();
    assert_eq!(series.len(), 1);
    assert_eq!(series.entry(0).0, 60);
}

#[test]
fn last_trade_picks_the_greatest_bucket() {
    let mut db = MemTier::new();
    db.insert_trade(&trade_timestamps(360), &trade("mint", 9, 3)).unwrap();
    db.insert_trade(&trade_timestamps(0), &trade("mint", 10, 10)).unwrap();
    db.insert_trade(&trade_timestamps(65), &trade("mint", 6, 5)).unwrap();
    let (bucket, candle) = db.last_trade("mint", Resolution::M1).unwrap();
    assert_eq!(bucket, 360);
    assert_eq!(candle.close, 3_000_000_000);
}

#[test]
fn assets_do_not_share_buckets() {
    let mut storage = Storage::new(MemTier::new(), MemTier::new());
    PumpHandler::handle_trade(&mut storage, trade("one", 10, 10), 0).unwrap();
    PumpHandler::handle_trade(&mut storage, trade("two", 6, 5), 0).unwrap();
    let one = storage.trades_since("one", 0, Resolution::M1, 100).unwrap();
    let two = storage.trades_since("two", 0, Resolution::M1, 100).unwrap();
    assert_eq!(one.len(), 1);
    assert_eq!(two.len(), 1);
    assert_eq!(one.entry(0).1.close, 1_000_000_000);
    assert_eq!(two.entry(0).1.close, 1_200_000_000);
}

#[test]
fn a_write_reaches_the_healthy_tier_when_the_other_fails() {
    let mut cache = MemTier::new();
    cache.set_available(false);
    let db = MemTier::new();
    let mut storage = Storage::new(db, cache);
    // The dual write still succeeds overall.
    PumpHandler::handle_trade(&mut storage, trade("mint", 10, 10), 0).unwrap();
    // The durable tier answers once the range is outside the horizon.
    let series = storage
        .trades_since("mint", 0, Resolution::M1, 2 * RETENTION_SECONDS)
        .unwrap();
    assert_eq!(series.len(), 1);
}

#[test]
fn every_tier_failing_surfaces_tier_unavailable() {
    let mut cache = MemTier::new();
    let mut db = MemTier::new();
    cache.set_available(false);
    db.set_available(false);
    let mut storage = Storage::new(db, cache);
    assert_eq!(
        storage.trades_since("mint", 0, Resolution::M1, 100).err(),
        Some(StoreError::TierUnavailable)
    );
    assert_eq!(storage.last_trade("mint", Resolution::M1), Err(StoreError::TierUnavailable));
    assert_eq!(storage.get_tokens().err(), Some(StoreError::TierUnavailable));
    assert_eq!(
        storage.get_token_metadata("mint").err(),
        Some(StoreError::TierUnavailable)
    );
    assert_eq!(
        storage.insert_trade(&trade_timestamps(0), &trade("mint", 10, 10)),
        Err(StoreError::TierUnavailable)
    );
    assert_eq!(
        storage.insert_token_metadata("mint".to_owned(), None),
        Err(StoreError::TierUnavailable)
    );
}

#[test]
fn a_dual_write_with_both_tiers_failing_surfaces_the_error() {
    let mut cache = MemTier::new();
    let mut db = MemTier::new();
    cache.set_available(false);
    db.set_available(false);
    let mut storage = Storage::new(db, cache);
    let r = PumpHandler::handle_trade(&mut storage, trade("mint", 10, 10), 0);
    assert_eq!(r, Err(StoreError::TierUnavailable));
    let r = PumpHandler::handle_create(&mut storage, "mint".to_owned(), None);
    assert_eq!(r, Err(StoreError::TierUnavailable));
}

#[test]
fn unseen_asset_reads_as_not_found() {
    let storage = Storage::new(MemTier::new(), MemTier::new());
    assert_eq!(storage.get_token_metadata("mint").err(), Some(StoreError::NotFound));
}

#[test]
fn metadata_upsert_overwrites_and_bare_upsert_keeps() {
    let mut storage = Storage::new(MemTier::new(), MemTier::new());
    storage
        .insert_token_metadata("mint".to_owned(), Some(metadata("Token", "TOK", "uri://a")))
        .unwrap();
    assert_eq!(storage.get_token_metadata("mint").unwrap(), metadata("Token", "TOK", "uri://a"));

    // An upsert without metadata keeps what is stored.
    storage.insert_token_metadata("mint".to_owned(), None).unwrap();
    assert_eq!(storage.get_token_metadata("mint").unwrap(), metadata("Token", "TOK", "uri://a"));

    // An upsert with metadata overwrites.
    storage
        .insert_token_metadata("mint".to_owned(), Some(metadata("Renamed", "RN", "uri://b")))
        .unwrap();
    assert_eq!(storage.get_token_metadata("mint").unwrap(), metadata("Renamed", "RN", "uri://b"));
}

#[test]
fn bare_upsert_creates_the_row_with_placeholder_metadata() {
    let mut storage = Storage::new(MemTier::new(), MemTier::new());
    storage.insert_token_metadata("mint".to_owned(), None).unwrap();
    // The row now exists, so the asset no longer reads as not found.
    assert_eq!(
        storage.get_token_metadata("mint").unwrap(),
        metadata("unknown", "NAN", "unknown")
    );
}

#[test]
fn get_tokens_lists_every_known_asset() {
    let mut storage = Storage::new(MemTier::new(), MemTier::new());
    storage
        .insert_token_metadata("a".to_owned(), Some(metadata("A", "AA", "uri://a")))
        .unwrap();
    storage.insert_token_metadata("b".to_owned(), None).unwrap();
    let mut tokens = storage.get_tokens().unwrap();
    tokens.sort_by(|x, y| x.0.cmp(&y.0));
    assert_eq!(tokens.len(), 2);
    assert_eq!(tokens[0].0, "a");
    assert_eq!(tokens[0].1, metadata("A", "AA", "uri://a"));
    assert_eq!(tokens[1].0, "b");
    assert_eq!(tokens[1].1, metadata("unknown", "NAN", "unknown"));
}

#[test]
fn needs_metadata_only_for_unseen_assets() {
    let mut storage = Storage::new(MemTier::new(), MemTier::new());
    assert!(PumpHandler::needs_metadata(&storage, "mint"));
    PumpHandler::handle_create(&mut storage, "mint".to_owned(), None).unwrap();
    assert!(!PumpHandler::needs_metadata(&storage, "mint"));
}
