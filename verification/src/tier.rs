//! The storage-tier capability: what a candle tier and a metadata tier must
//! provide, stated over ghost maps.
//!
//! The tiered store is built against these traits rather than concrete
//! backends, so a tier can be an in-memory double in tests or an outside
//! store in the unverified shell. Either tier may fail at any call; the
//! contracts say what holds of the tier's contents whenever a call reports
//! success, and that a failed write leaves the contents unchanged.

use vstd::prelude::*;

verus! {

use crate::aggregate::merged_candle;
use crate::aggregate::price_spec;
use crate::model::Candle;
use crate::model::Resolution;
use crate::model::TokenMetadata;
use crate::model::TradeInfo;
use crate::model::resolutions;
use crate::series::Series;
use crate::series::series_map;
use vstd::string::StringExecFns;

/// The composite address of one candle: asset, resolution, aligned bucket
/// start.
pub struct BucketKey {
    pub mint: Seq<char>,
    pub resolution: Resolution,
    pub bucket: u64,
}

/// Shorthand for building a [`BucketKey`].
pub open spec fn bucket_key(mint: Seq<char>, resolution: Resolution, bucket: u64) -> BucketKey {
    BucketKey { mint, resolution, bucket }
}

/// A storage tier failed to answer; the failure carries no data.
#[derive(Clone, Copy, Debug, PartialEq, Eq, Structural)]
pub enum TierError {
    Unavailable,
}

/// Merge one trade into the bucket at `key`: the bucket's previous candle,
/// if any, is merged with the trade's price and base amount.
pub open spec fn apply_trade_step(
    m: Map<BucketKey, Candle>,
    key: BucketKey,
    price: u128,
    amount: u64,
) -> Map<BucketKey, Candle> {
    m.insert(
        key,
        merged_candle(
            if m.dom().contains(key) {
                Option::Some(m[key])
            } else {
                Option::None
            },
            price,
            amount,
        ),
    )
}

/// The tier contents after a sequence of trades, each a `(price, base
/// amount)` pair, lands in the bucket at `key` in order.
pub open spec fn apply_trades_at(
    m: Map<BucketKey, Candle>,
    key: BucketKey,
    trades: Seq<(u128, u64)>,
) -> Map<BucketKey, Candle>
    decreases trades.len(),
{
    if trades.len() == 0 {
        m
    } else {
        apply_trade_step(
            apply_trades_at(m, key, trades.drop_last()),
            key,
            trades.last().0,
            trades.last().1,
        )
    }
}

/// A bucket's stored candle is the fold of its own trade history: merging a
/// sequence of trades into a previously empty bucket leaves exactly the
/// candle that [`crate::aggregate::candle_after`] ascribes to that history,
/// and no other bucket changes.
pub proof fn lemma_bucket_history(
    m: Map<BucketKey, Candle>,
    key: BucketKey,
    trades: Seq<(u128, u64)>,
)
    requires
        !m.dom().contains(key),
    ensures
        apply_trades_at(m, key, trades).dom().contains(key) <==> trades.len() >= 1,
        trades.len() >= 1 ==> apply_trades_at(m, key, trades)[key]
            == crate::aggregate::candle_after(trades).unwrap(),
        forall|other: BucketKey|
            other != key ==> #[trigger] apply_trades_at(m, key, trades).dom().contains(other)
                == m.dom().contains(other),
        forall|other: BucketKey|
            other != key && m.dom().contains(other) ==> #[trigger] apply_trades_at(
                m,
                key,
                trades,
            )[other] == m[other],
    decreases trades.len(),
{
    if trades.len() >= 1 {
        lemma_bucket_history(m, key, trades.drop_last());
    }
}

/// Merge one trade into the buckets of the first `n` resolutions, in order.
pub open spec fn apply_trade_upto(
    m: Map<BucketKey, Candle>,
    mint: Seq<char>,
    timestamps: Seq<u64>,
    price: u128,
    amount: u64,
    n: int,
) -> Map<BucketKey, Candle>
    decreases n,
{
    if n <= 0 {
        m
    } else {
        apply_trade_step(
            apply_trade_upto(m, mint, timestamps, price, amount, n - 1),
            bucket_key(mint, resolutions()[n - 1], timestamps[n - 1]),
            price,
            amount,
        )
    }
}

/// Merging a trade into the first `n` resolutions leaves every bucket key
/// other than its own untouched.
proof fn lemma_apply_trade_upto_frame(
    m: Map<BucketKey, Candle>,
    mint: Seq<char>,
    timestamps: Seq<u64>,
    price: u128,
    amount: u64,
    other: BucketKey,
    n: int,
)
    requires
        0 <= n <= resolutions().len(),
        forall|i: int|
            0 <= i < n ==> other != bucket_key(mint, resolutions()[i], #[trigger] timestamps[i]),
    ensures
        apply_trade_upto(m, mint, timestamps, price, amount, n).dom().contains(other)
            == m.dom().contains(other),
        m.dom().contains(other) ==> apply_trade_upto(m, mint, timestamps, price, amount, n)[other]
            == m[other],
    decreases n,
{
    if n > 0 {
        lemma_apply_trade_upto_frame(m, mint, timestamps, price, amount, other, n - 1);
    }
}

/// Merging one trade touches only its own six bucket keys: any other key
/// keeps its presence and its candle.
pub proof fn lemma_apply_trade_frame(
    m: Map<BucketKey, Candle>,
    mint: Seq<char>,
    timestamps: Seq<u64>,
    price: u128,
    amount: u64,
    other: BucketKey,
)
    requires
        forall|i: int|
            0 <= i < resolutions().len() ==> other != bucket_key(
                mint,
                resolutions()[i],
                #[trigger] timestamps[i],
            ),
    ensures
        apply_trade(m, mint, timestamps, price, amount).dom().contains(other) == m.dom().contains(
            other,
        ),
        m.dom().contains(other) ==> apply_trade(m, mint, timestamps, price, amount)[other]
            == m[other],
{
    lemma_apply_trade_upto_frame(
        m,
        mint,
        timestamps,
        price,
        amount,
        other,
        resolutions().len() as int,
    );
}

/// The tier contents after one trade lands in all six resolutions.
pub open spec fn apply_trade(
    m: Map<BucketKey, Candle>,
    mint: Seq<char>,
    timestamps: Seq<u64>,
    price: u128,
    amount: u64,
) -> Map<BucketKey, Candle>
    recommends
        timestamps.len() == resolutions().len(),
{
    apply_trade_upto(m, mint, timestamps, price, amount, resolutions().len() as int)
}

/// The buckets of `(mint, resolution)` starting at or after `from`, keyed by
/// bucket start.
pub open spec fn since_map(
    m: Map<BucketKey, Candle>,
    mint: Seq<char>,
    resolution: Resolution,
    from: u64,
) -> Map<u64, Candle> {
    Map::new(
        |b: u64| b >= from && m.dom().contains(bucket_key(mint, resolution, b)),
        |b: u64| m[bucket_key(mint, resolution, b)],
    )
}

/// `b` is the greatest populated bucket of `(mint, resolution)` strictly
/// before `from`.
pub open spec fn is_latest_before(
    m: Map<BucketKey, Candle>,
    mint: Seq<char>,
    resolution: Resolution,
    from: u64,
    b: u64,
) -> bool {
    &&& b < from
    &&& m.dom().contains(bucket_key(mint, resolution, b))
    &&& forall|b2: u64|
        b2 < from && m.dom().contains(bucket_key(mint, resolution, b2)) ==> b2 <= b
}

/// Like [`since_map`], with one extra entry: the greatest populated bucket
/// strictly before `from`, if any — the seed for forward-filling.
pub open spec fn since_with_prev_map(
    m: Map<BucketKey, Candle>,
    mint: Seq<char>,
    resolution: Resolution,
    from: u64,
) -> Map<u64, Candle> {
    Map::new(
        |b: u64| m.dom().contains(bucket_key(mint, resolution, b))
            && (b >= from || is_latest_before(m, mint, resolution, from, b)),
        |b: u64| m[bucket_key(mint, resolution, b)],
    )
}

/// `b` is the greatest populated bucket of `(mint, resolution)` overall.
pub open spec fn is_latest_bucket(
    m: Map<BucketKey, Candle>,
    mint: Seq<char>,
    resolution: Resolution,
    b: u64,
) -> bool {
    &&& m.dom().contains(bucket_key(mint, resolution, b))
    &&& forall|b2: u64| m.dom().contains(bucket_key(mint, resolution, b2)) ==> b2 <= b
}

/// A tier that stores candles addressed by bucket key.
///
/// `candles()` is the tier's ghost contents. A failing call reports
/// `TierError` and, for writes, leaves the contents unchanged; nothing is
/// promised about when a tier fails.
pub trait CandlesStorage: Sized {
    /// The tier's contents: one candle per populated bucket key. The
    /// default leaves the contents unspecified, as for an outside backend
    /// about which nothing is proved.
    open spec fn candles(&self) -> Map<BucketKey, Candle> {
        vstd::pervasive::arbitrary()
    }

    /// Whether every read of this tier currently fails — the ghost face of
    /// a tier outage. The default leaves it unspecified, as for an outside
    /// backend about which nothing is proved.
    open spec fn reads_fail(&self) -> bool {
        vstd::pervasive::arbitrary()
    }

    /// Whether every write to this tier currently fails; unspecified by
    /// default, like [`CandlesStorage::reads_fail`].
    open spec fn writes_fail(&self) -> bool {
        vstd::pervasive::arbitrary()
    }

    /// The tier's metadata rows, for a tier that holds any (see
    /// [`MetadataStorage`]); one candle write never touches them. The
    /// default leaves them unspecified.
    open spec fn tokens(&self) -> Map<Seq<char>, Option<TokenMetadata>> {
        vstd::pervasive::arbitrary()
    }

    /// Merge one trade into the six buckets named by `timestamps`, one per
    /// resolution in processing order. In an outage the write fails and
    /// changes nothing; otherwise it succeeds. Metadata rows are never
    /// touched.
    fn insert_trade(&mut self, timestamps: &Vec<u64>, info: &TradeInfo) -> (r: Result<
        (),
        TierError,
    >)
        requires
            timestamps@.len() == resolutions().len(),
            info.token_amount > 0,
        ensures
            r is Ok ==> final(self).candles() == apply_trade(
                old(self).candles(),
                info.mint_acc@,
                timestamps@,
                price_spec(info.sol_amount, info.token_amount) as u128,
                info.token_amount,
            ),
            r is Err ==> final(self).candles() == old(self).candles(),
            !old(self).writes_fail() ==> r is Ok,
            old(self).writes_fail() ==> r is Err,
            final(self).tokens() == old(self).tokens(),
    ;

    /// All buckets of `(mint_acc, resolution)` at or after `from_timestamp`,
    /// in bucket order. The read succeeds exactly when the tier is not in
    /// outage; an empty range is a success, not an error.
    fn trades_since(&self, mint_acc: &str, from_timestamp: u64, resolution: Resolution) -> (r:
        Result<Series, TierError>)
        ensures
            r matches Ok(s) ==> series_map(s@) == since_map(
                self.candles(),
                mint_acc@,
                resolution,
                from_timestamp,
            ),
            self.reads_fail() ==> r is Err,
            !self.reads_fail() ==> r is Ok,
    ;

    /// Like `trades_since`, plus the one bucket strictly before
    /// `from_timestamp` that seeds forward-filling, if it exists.
    fn trades_since_with_one_previous(
        &self,
        mint_acc: &str,
        from_timestamp: u64,
        resolution: Resolution,
    ) -> (r: Result<Series, TierError>)
        ensures
            r matches Ok(s) ==> series_map(s@) == since_with_prev_map(
                self.candles(),
                mint_acc@,
                resolution,
                from_timestamp,
            ),
            self.reads_fail() ==> r is Err,
            !self.reads_fail() ==> r is Ok,
    ;

    /// The greatest populated bucket of `(mint_acc, resolution)` with its
    /// candle. Outside an outage the read succeeds exactly when the series
    /// is populated: an asset never traded at this resolution reads as an
    /// error, as the backends report it.
    fn last_trade(&self, mint_acc: &str, resolution: Resolution) -> (r: Result<
        (u64, Candle),
        TierError,
    >)
        ensures
            r matches Ok(p) ==> {
                &&& is_latest_bucket(self.candles(), mint_acc@, resolution, p.0)
                &&& self.candles()[bucket_key(mint_acc@, resolution, p.0)] == p.1
            },
            self.reads_fail() ==> r is Err,
            !self.reads_fail() ==> ((r is Ok) <==> exists|b: u64|
                self.candles().dom().contains(bucket_key(mint_acc@, resolution, b))),
    ;
}

/// `got` is what a reader sees for a stored metadata row: the stored fields,
/// or the placeholder fields for a row without metadata.
pub open spec fn metadata_matches(row: Option<TokenMetadata>, got: TokenMetadata) -> bool {
    match row {
        Option::Some(m) => got.name@ == m.name@ && got.symbol@ == m.symbol@ && got.uri@ == m.uri@,
        Option::None => got.is_unknown(),
    }
}

/// `v` lists exactly the assets of `m`, each once, with its visible metadata.
pub open spec fn tokens_listing(
    m: Map<Seq<char>, Option<TokenMetadata>>,
    v: Seq<(String, TokenMetadata)>,
) -> bool {
    &&& forall|i: int|
        0 <= i < v.len() ==> m.dom().contains(v[i].0@) && metadata_matches(m[v[i].0@], v[i].1)
    &&& forall|i: int, j: int| 0 <= i < j < v.len() ==> v[i].0@ != v[j].0@
    &&& forall|mint: Seq<char>|
        m.dom().contains(mint) ==> exists|i: int| 0 <= i < v.len() && v[i].0@ == mint
}

/// A tier that also stores per-asset metadata rows.
///
/// Its `tokens()` view (inherited from [`CandlesStorage`]) maps each known
/// asset to its metadata, or to `None` for an asset whose row exists
/// without metadata. A metadata write never touches the candle contents.
pub trait MetadataStorage: CandlesStorage {
    /// Upsert an asset's row. With metadata, the row is created or
    /// overwritten; without, the row is only guaranteed to exist, and
    /// metadata already stored is kept. In an outage the write fails and
    /// changes nothing; otherwise it succeeds. Candles are never touched.
    fn insert_token_metadata(&mut self, mint_acc: String, metadata: Option<TokenMetadata>) -> (r:
        Result<(), TierError>)
        ensures
            r is Ok ==> final(self).tokens() == (match metadata {
                Option::Some(md) => old(self).tokens().insert(mint_acc@, Option::Some(md)),
                Option::None => if old(self).tokens().dom().contains(mint_acc@) {
                    old(self).tokens()
                } else {
                    old(self).tokens().insert(mint_acc@, Option::None)
                },
            }),
            r is Err ==> final(self).tokens() == old(self).tokens(),
            !old(self).writes_fail() ==> r is Ok,
            old(self).writes_fail() ==> r is Err,
            final(self).candles() == old(self).candles(),
    ;

    /// Read an asset's visible metadata: `Ok(None)` when the row is absent.
    /// The read succeeds exactly when the tier is not in outage; an absent
    /// row is a success, not an error.
    fn get_token_metadata(&self, mint_acc: &str) -> (r: Result<Option<TokenMetadata>, TierError>)
        ensures
            r matches Ok(o) ==> {
                &&& o is Some <==> self.tokens().dom().contains(mint_acc@)
                &&& (o matches Some(md) ==> metadata_matches(self.tokens()[mint_acc@], md))
            },
            self.reads_fail() ==> r is Err,
            !self.reads_fail() ==> r is Ok,
    ;

    /// List every known asset with its visible metadata. The read succeeds
    /// exactly when the tier is not in outage.
    fn get_tokens(&self) -> (r: Result<Vec<(String, TokenMetadata)>, TierError>)
        ensures
            r matches Ok(v) ==> tokens_listing(self.tokens(), v@),
            self.reads_fail() ==> r is Err,
            !self.reads_fail() ==> r is Ok,
    ;
}

/// The name under which the cache tier files one field of one asset's
/// series: `trade_<mint>_<resolution>_<field>`.
pub fn ts_name(mint: &str, resolution: Resolution, mode: &str) -> (r: String)
    ensures
        r@ == "trade_"@ + mint@ + "_"@ + resolution.name_spec() + "_"@ + mode@,
{
    let mut r = "trade_".to_owned();
    r.append(mint);
    r.append("_");
    let name = resolution.short_name();
    r.append(name.as_str());
    r.append("_");
    r.append(mode);
    r
}

} // verus!
