//! The tiered store: a retention-bounded cache tier in front of a durable
//! tier, with a fixed fallback policy.
//!
//! Writes are best-effort dual writes: both tiers are attempted regardless
//! of whether the other fails, a tier failure never fails the overall call,
//! and no rollback couples the tiers. Reads within the cache's retention
//! horizon try the cache first and fall back to the durable tier on a cache
//! error; reads outside the horizon go to the durable tier directly, which
//! is the source of truth.

use vstd::prelude::*;

verus! {

use crate::model::Candle;
use crate::model::Resolution;
use crate::model::TokenMetadata;
use crate::model::TradeInfo;
use crate::model::resolutions;
use crate::aggregate::price_spec;
use crate::series::Series;
use crate::series::series_map;
use crate::tier::BucketKey;
use crate::tier::CandlesStorage;
use crate::tier::MetadataStorage;
use crate::tier::apply_trade;
use crate::tier::bucket_key;
use crate::tier::is_latest_bucket;
use crate::tier::metadata_matches;
use crate::tier::since_map;
use crate::tier::since_with_prev_map;
use crate::tier::tokens_listing;

/// How long the cache tier retains data, in seconds (one rolling day).
pub const RETENTION_SECONDS: u64 = 24 * 60 * 60;

/// Errors surfaced by the tiered store.
#[derive(Clone, Copy, Debug, PartialEq, Eq, Structural)]
pub enum StoreError {
    /// The trade has no finite price (base amount zero); nothing was written.
    Validation,
    /// Every tier that could answer the call failed.
    TierUnavailable,
    /// The asset has no metadata row.
    NotFound,
}

/// `from` falls within the cache tier's retention horizon as of `now`.
pub open spec fn within_retention(from: u64, now: u64) -> bool {
    from > now - RETENTION_SECONDS
}

/// The tiered store; it exclusively owns both tier clients.
pub struct Storage<C: CandlesStorage, D: CandlesStorage + MetadataStorage> {
    cache: C,
    db: D,
}

impl<C: CandlesStorage, D: CandlesStorage + MetadataStorage> Storage<C, D> {
    /// The cache tier's candle contents.
    pub closed spec fn cache_candles(&self) -> Map<BucketKey, Candle> {
        self.cache.candles()
    }

    /// The durable tier's candle contents.
    pub closed spec fn db_candles(&self) -> Map<BucketKey, Candle> {
        self.db.candles()
    }

    /// The durable tier's metadata rows.
    pub closed spec fn db_tokens(&self) -> Map<Seq<char>, Option<TokenMetadata>> {
        self.db.tokens()
    }

    /// Whether every read of the cache tier currently fails.
    pub closed spec fn cache_reads_fail(&self) -> bool {
        self.cache.reads_fail()
    }

    /// Whether every read of the durable tier currently fails.
    pub closed spec fn db_reads_fail(&self) -> bool {
        self.db.reads_fail()
    }

    /// Whether every write to the cache tier currently fails.
    pub closed spec fn cache_writes_fail(&self) -> bool {
        self.cache.writes_fail()
    }

    /// Whether every write to the durable tier currently fails.
    pub closed spec fn db_writes_fail(&self) -> bool {
        self.db.writes_fail()
    }

    /// Build a tiered store over the two tier clients.
    pub fn new(db: D, cache: C) -> (r: Storage<C, D>)
        ensures
            r.cache_candles() == cache.candles(),
            r.db_candles() == db.candles(),
            r.db_tokens() == db.tokens(),
            r.cache_reads_fail() == cache.reads_fail(),
            r.cache_writes_fail() == cache.writes_fail(),
            r.db_reads_fail() == db.reads_fail(),
            r.db_writes_fail() == db.writes_fail(),
    {
        Storage { cache, db }
    }

    /// Record one trade in both tiers: a best-effort dual write.
    ///
    /// A trade with base amount zero is rejected as a whole: the call
    /// reports a validation failure and neither tier is touched. Otherwise
    /// each tier is attempted independently, regardless of whether the
    /// other fails: whichever write succeeds leaves that tier with the
    /// trade merged into all six resolutions, a failed write leaves its
    /// tier unchanged, and a tier that is not in outage takes the write.
    /// The call succeeds exactly when at least one tier took the trade;
    /// when both writes fail nothing changed and the failure surfaces.
    /// Metadata is never touched.
    pub fn insert_trade(&mut self, timestamps: &Vec<u64>, info: &TradeInfo) -> (r: Result<
        (),
        StoreError,
    >)
        requires
            timestamps@.len() == resolutions().len(),
        ensures
            info.token_amount == 0 ==> {
                &&& r == Result::<(), StoreError>::Err(StoreError::Validation)
                &&& final(self).cache_candles() == old(self).cache_candles()
                &&& final(self).db_candles() == old(self).db_candles()
            },
            info.token_amount > 0 ==> {
                let applied_cache = apply_trade(
                    old(self).cache_candles(),
                    info.mint_acc@,
                    timestamps@,
                    price_spec(info.sol_amount, info.token_amount) as u128,
                    info.token_amount,
                );
                let applied_db = apply_trade(
                    old(self).db_candles(),
                    info.mint_acc@,
                    timestamps@,
                    price_spec(info.sol_amount, info.token_amount) as u128,
                    info.token_amount,
                );
                &&& (r is Ok ==> final(self).cache_candles() == applied_cache || final(self).db_candles()
                    == applied_db)
                &&& (r is Err ==> {
                    &&& r == Result::<(), StoreError>::Err(StoreError::TierUnavailable)
                    &&& final(self).cache_candles() == old(self).cache_candles()
                    &&& final(self).db_candles() == old(self).db_candles()
                })
                &&& (final(self).cache_candles() == applied_cache || final(self).cache_candles()
                    == old(self).cache_candles())
                &&& (final(self).db_candles() == applied_db || final(self).db_candles() == old(
                    self,
                ).db_candles())
                &&& !old(self).cache_writes_fail() ==> final(self).cache_candles()
                    == applied_cache
                &&& !old(self).db_writes_fail() ==> final(self).db_candles() == applied_db
                &&& (!old(self).cache_writes_fail() || !old(self).db_writes_fail()) ==> r is Ok
                &&& (old(self).cache_writes_fail() && old(self).db_writes_fail()) ==> r is Err
            },
            final(self).db_tokens() == old(self).db_tokens(),
    {
        if info.token_amount == 0 {
            return Result::Err(StoreError::Validation);
        }
        let cache_result = self.cache.insert_trade(timestamps, info);
        let db_result = self.db.insert_trade(timestamps, info);
        if cache_result.is_err() && db_result.is_err() {
            return Result::Err(StoreError::TierUnavailable);
        }
        Result::Ok(())
    }

    /// Read an asset's candle history from `from_timestamp` on.
    ///
    /// Within the retention horizon the cache answers first and its answer
    /// — even an empty range — is returned as-is; only a cache error falls
    /// back to the durable tier. Outside the horizon the durable tier
    /// answers directly. A successful read is one tier's data unchanged:
    /// the cache's plain range, or the durable tier's range with its one
    /// seed bucket before `from_timestamp`. While the cache fails every
    /// read, whatever comes back is the durable tier's data unchanged; a
    /// healthy durable tier guarantees success, and both tiers in outage
    /// guarantee the failure propagates.
    pub fn trades_since(
        &self,
        mint_acc: &str,
        from_timestamp: u64,
        resolution: Resolution,
        now: u64,
    ) -> (r: Result<Series, StoreError>)
        ensures
            r matches Ok(s) ==> series_map(s@) == since_map(
                self.cache_candles(),
                mint_acc@,
                resolution,
                from_timestamp,
            ) || series_map(s@) == since_with_prev_map(
                self.db_candles(),
                mint_acc@,
                resolution,
                from_timestamp,
            ),
            !within_retention(from_timestamp, now) ==> (r matches Ok(s) ==> series_map(s@)
                == since_with_prev_map(
                self.db_candles(),
                mint_acc@,
                resolution,
                from_timestamp,
            )),
            self.cache_reads_fail() ==> (r matches Ok(s) ==> series_map(s@)
                == since_with_prev_map(
                self.db_candles(),
                mint_acc@,
                resolution,
                from_timestamp,
            )),
            within_retention(from_timestamp, now) && !self.cache_reads_fail() ==> (r matches Ok(s)
                && series_map(s@) == since_map(
                self.cache_candles(),
                mint_acc@,
                resolution,
                from_timestamp,
            )),
            !self.db_reads_fail() ==> r is Ok,
            self.cache_reads_fail() && self.db_reads_fail() ==> r is Err,
            r is Err ==> r == Result::<Series, StoreError>::Err(StoreError::TierUnavailable),
    {
        let within = if now < RETENTION_SECONDS {
            true
        } else {
            from_timestamp > now - RETENTION_SECONDS
        };
        if within {
            match self.cache.trades_since(mint_acc, from_timestamp, resolution) {
                Result::Ok(s) => {
                    return Result::Ok(s);
                },
                Result::Err(_) => {},
            }
        }
        match self.db.trades_since_with_one_previous(mint_acc, from_timestamp, resolution) {
            Result::Ok(s) => Result::Ok(s),
            Result::Err(_) => Result::Err(StoreError::TierUnavailable),
        }
    }

    /// Read the asset's most recent bucket, cache first, durable tier on a
    /// cache error. A successful read is the greatest populated bucket of
    /// whichever tier answered: a healthy cache with data answers, a cache
    /// that errs or holds nothing hands over to the durable tier, and the
    /// call fails when both tiers are in outage (or neither holds data).
    pub fn last_trade(&self, mint_acc: &str, resolution: Resolution) -> (r: Result<
        (u64, Candle),
        StoreError,
    >)
        ensures
            r matches Ok(p) ==> (is_latest_bucket(
                self.cache_candles(),
                mint_acc@,
                resolution,
                p.0,
            ) && self.cache_candles()[bucket_key(mint_acc@, resolution, p.0)] == p.1)
                || (is_latest_bucket(self.db_candles(), mint_acc@, resolution, p.0)
                && self.db_candles()[bucket_key(mint_acc@, resolution, p.0)] == p.1),
            self.cache_reads_fail() ==> (r matches Ok(p) ==> is_latest_bucket(
                self.db_candles(),
                mint_acc@,
                resolution,
                p.0,
            ) && self.db_candles()[bucket_key(mint_acc@, resolution, p.0)] == p.1),
            !self.cache_reads_fail() && (exists|b: u64|
                self.cache_candles().dom().contains(bucket_key(mint_acc@, resolution, b))) ==> (
            r matches Ok(p) && is_latest_bucket(self.cache_candles(), mint_acc@, resolution, p.0)
                && self.cache_candles()[bucket_key(mint_acc@, resolution, p.0)] == p.1),
            (self.cache_reads_fail() || !(exists|b: u64|
                self.cache_candles().dom().contains(bucket_key(mint_acc@, resolution, b))))
                && !self.db_reads_fail() ==> ((r is Ok) <==> exists|b: u64|
                self.db_candles().dom().contains(bucket_key(mint_acc@, resolution, b))),
            self.cache_reads_fail() && self.db_reads_fail() ==> r is Err,
            r is Err ==> r == Result::<(u64, Candle), StoreError>::Err(StoreError::TierUnavailable),
    {
        match self.cache.last_trade(mint_acc, resolution) {
            Result::Ok(p) => {
                return Result::Ok(p);
            },
            Result::Err(_) => {},
        }
        match self.db.last_trade(mint_acc, resolution) {
            Result::Ok(p) => Result::Ok(p),
            Result::Err(_) => Result::Err(StoreError::TierUnavailable),
        }
    }

    /// List every known asset with its metadata; the durable tier alone
    /// holds metadata, and the call succeeds exactly when that tier is not
    /// in outage.
    pub fn get_tokens(&self) -> (r: Result<Vec<(String, TokenMetadata)>, StoreError>)
        ensures
            r matches Ok(v) ==> tokens_listing(self.db_tokens(), v@),
            !self.db_reads_fail() ==> r is Ok,
            self.db_reads_fail() ==> r is Err,
            r is Err ==> r == Result::<Vec<(String, TokenMetadata)>, StoreError>::Err(
                StoreError::TierUnavailable,
            ),
    {
        match self.db.get_tokens() {
            Result::Ok(v) => Result::Ok(v),
            Result::Err(_) => Result::Err(StoreError::TierUnavailable),
        }
    }

    /// Read an asset's metadata from the durable tier. An asset whose row
    /// is absent reads as `NotFound`, so the caller may treat it as unseen
    /// and fetch metadata lazily; while that tier is not in outage, the
    /// outcome is decided by the row alone.
    pub fn get_token_metadata(&self, mint_acc: &str) -> (r: Result<TokenMetadata, StoreError>)
        ensures
            r matches Ok(md) ==> self.db_tokens().dom().contains(mint_acc@) && metadata_matches(
                self.db_tokens()[mint_acc@],
                md,
            ),
            r == Result::<TokenMetadata, StoreError>::Err(StoreError::NotFound)
                ==> !self.db_tokens().dom().contains(mint_acc@),
            !self.db_reads_fail() ==> ((r is Ok) <==> self.db_tokens().dom().contains(mint_acc@)),
            !self.db_reads_fail() && !self.db_tokens().dom().contains(mint_acc@) ==> r
                == Result::<TokenMetadata, StoreError>::Err(StoreError::NotFound),
            self.db_reads_fail() ==> r == Result::<TokenMetadata, StoreError>::Err(
                StoreError::TierUnavailable,
            ),
            r is Err ==> r == Result::<TokenMetadata, StoreError>::Err(StoreError::NotFound) || r
                == Result::<TokenMetadata, StoreError>::Err(StoreError::TierUnavailable),
    {
        match self.db.get_token_metadata(mint_acc) {
            Result::Ok(Option::Some(md)) => Result::Ok(md),
            Result::Ok(Option::None) => Result::Err(StoreError::NotFound),
            Result::Err(_) => Result::Err(StoreError::TierUnavailable),
        }
    }

    /// Upsert an asset's metadata row in the durable tier. With metadata
    /// the row is created or overwritten; without, the row is only
    /// guaranteed to exist, keeping any metadata already stored. The write
    /// succeeds exactly when that tier is not in outage, and no candle in
    /// either tier changes.
    pub fn insert_token_metadata(&mut self, mint_acc: String, metadata: Option<TokenMetadata>) -> (r:
        Result<(), StoreError>)
        ensures
            r is Ok ==> final(self).db_tokens() == (match metadata {
                Option::Some(md) => old(self).db_tokens().insert(mint_acc@, Option::Some(md)),
                Option::None => if old(self).db_tokens().dom().contains(mint_acc@) {
                    old(self).db_tokens()
                } else {
                    old(self).db_tokens().insert(mint_acc@, Option::None)
                },
            }),
            r is Err ==> final(self).db_tokens() == old(self).db_tokens() && r == Result::<
                (),
                StoreError,
            >::Err(StoreError::TierUnavailable),
            !old(self).db_writes_fail() ==> r is Ok,
            old(self).db_writes_fail() ==> r is Err,
            final(self).cache_candles() == old(self).cache_candles(),
            final(self).db_candles() == old(self).db_candles(),
    {
        match self.db.insert_token_metadata(mint_acc, metadata) {
            Result::Ok(()) => Result::Ok(()),
            Result::Err(_) => Result::Err(StoreError::TierUnavailable),
        }
    }
}

} // verus!
