//! Per-event processing: how one ingested event changes the tiered store.
//!
//! The event source and the metadata source are outside collaborators; the
//! unverified shell receives raw events, fetches metadata where this module
//! asks for it, and calls in here for every decision and every store
//! change. Events for the same asset must be handed in in their source
//! order, since a bucket's `open` and `close` are order-sensitive.

use vstd::prelude::*;

verus! {

use crate::aggregate::price_spec;
use crate::aggregate::trade_timestamps;
use crate::model::TokenMetadata;
use crate::model::TradeInfo;
use crate::model::resolutions;
use crate::storage::Storage;
use crate::storage::StoreError;
use crate::tier::CandlesStorage;
use crate::tier::MetadataStorage;
use crate::tier::apply_trade;

/// An ingested event, reduced to the plain values the pipeline reads. Any
/// other kind of event is `Other` and is ignored.
pub enum PumpEvent {
    /// An asset came into being; its metadata can be fetched lazily.
    Create { mint_acc: String },
    /// One trade of the asset.
    Trade { mint_acc: String, sol_amount: u64, token_amount: u64, timestamp: u64 },
    /// Anything else; ignored.
    Other,
}

/// The per-resolution aligned bucket starts of one event timestamp.
pub open spec fn aligned_timestamps(timestamp: u64) -> Seq<u64> {
    Seq::new(resolutions().len(), |i: int| resolutions()[i].align_spec(timestamp) as u64)
}

/// The event processor: pure decisions over the tiered store.
#[derive(Debug)]
pub struct PumpHandler;

impl PumpHandler {
    /// Record a newly seen asset: upsert its metadata row, with whatever
    /// metadata the caller could fetch (`None` when the fetch failed — the
    /// row still comes to exist). The write succeeds exactly when the
    /// durable tier is not in outage, and no candle changes.
    pub fn handle_create<C: CandlesStorage, D: CandlesStorage + MetadataStorage>(
        storage: &mut Storage<C, D>,
        mint_acc: String,
        metadata: Option<TokenMetadata>,
    ) -> (r: Result<(), StoreError>)
        ensures
            r is Ok ==> final(storage).db_tokens() == (match metadata {
                Option::Some(md) => old(storage).db_tokens().insert(mint_acc@, Option::Some(md)),
                Option::None => if old(storage).db_tokens().dom().contains(mint_acc@) {
                    old(storage).db_tokens()
                } else {
                    old(storage).db_tokens().insert(mint_acc@, Option::None)
                },
            }),
            r is Err ==> final(storage).db_tokens() == old(storage).db_tokens(),
            !old(storage).db_writes_fail() ==> r is Ok,
            old(storage).db_writes_fail() ==> r is Err,
            final(storage).cache_candles() == old(storage).cache_candles(),
            final(storage).db_candles() == old(storage).db_candles(),
    {
        storage.insert_token_metadata(mint_acc, metadata)
    }

    /// Whether an asset's metadata should be fetched before recording its
    /// trade: true when no row could be read. A `false` answer means the
    /// asset is already known, an unseen asset always answers `true`, and
    /// while the durable tier is not in outage the answer is decided by
    /// the row alone — a known asset answers `false`.
    pub fn needs_metadata<C: CandlesStorage, D: CandlesStorage + MetadataStorage>(
        storage: &Storage<C, D>,
        mint_acc: &str,
    ) -> (r: bool)
        ensures
            !r ==> storage.db_tokens().dom().contains(mint_acc@),
            !storage.db_tokens().dom().contains(mint_acc@) ==> r,
            !storage.db_reads_fail() && storage.db_tokens().dom().contains(mint_acc@) ==> !r,
    {
        storage.get_token_metadata(mint_acc).is_err()
    }

    /// Record one trade: reject it whole when its base amount is zero (no
    /// finite price), otherwise merge it into all six resolutions of both
    /// tiers, best effort per tier. The call succeeds exactly when at
    /// least one tier took the trade; with both tiers failing nothing
    /// changed and the failure surfaces.
    pub fn handle_trade<C: CandlesStorage, D: CandlesStorage + MetadataStorage>(
        storage: &mut Storage<C, D>,
        info: TradeInfo,
        timestamp: u64,
    ) -> (r: Result<(), StoreError>)
        ensures
            info.token_amount == 0 ==> {
                &&& r == Result::<(), StoreError>::Err(StoreError::Validation)
                &&& final(storage).cache_candles() == old(storage).cache_candles()
                &&& final(storage).db_candles() == old(storage).db_candles()
            },
            info.token_amount > 0 ==> {
                let applied_cache = apply_trade(
                    old(storage).cache_candles(),
                    info.mint_acc@,
                    aligned_timestamps(timestamp),
                    price_spec(info.sol_amount, info.token_amount) as u128,
                    info.token_amount,
                );
                let applied_db = apply_trade(
                    old(storage).db_candles(),
                    info.mint_acc@,
                    aligned_timestamps(timestamp),
                    price_spec(info.sol_amount, info.token_amount) as u128,
                    info.token_amount,
                );
                &&& (r is Ok ==> final(storage).cache_candles() == applied_cache || final(storage).db_candles()
                    == applied_db)
                &&& (r is Err ==> {
                    &&& r == Result::<(), StoreError>::Err(StoreError::TierUnavailable)
                    &&& final(storage).cache_candles() == old(storage).cache_candles()
                    &&& final(storage).db_candles() == old(storage).db_candles()
                })
                &&& (final(storage).cache_candles() == applied_cache || final(storage).cache_candles()
                    == old(storage).cache_candles())
                &&& (final(storage).db_candles() == applied_db || final(storage).db_candles()
                    == old(storage).db_candles())
                &&& !old(storage).cache_writes_fail() ==> final(storage).cache_candles()
                    == applied_cache
                &&& !old(storage).db_writes_fail() ==> final(storage).db_candles() == applied_db
                &&& (!old(storage).cache_writes_fail() || !old(storage).db_writes_fail()) ==> r
                    is Ok
                &&& (old(storage).cache_writes_fail() && old(storage).db_writes_fail()) ==> r
                    is Err
            },
            final(storage).db_tokens() == old(storage).db_tokens(),
    {
        let timestamps = trade_timestamps(timestamp);
        proof {
            assert(timestamps@ =~= aligned_timestamps(timestamp));
        }
        storage.insert_trade(&timestamps, &info)
    }
}

} // verus!
