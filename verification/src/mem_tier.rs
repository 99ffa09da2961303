//! A verified in-memory storage tier.
//!
//! `MemTier` implements both tier capabilities over plain vectors, with an
//! availability switch so tests can exercise the tiered store's fallback
//! paths. It doubles for either backend: the retention-bounded cache or the
//! durable store.

use vstd::prelude::*;

verus! {

use crate::aggregate::merge_candle;
use crate::aggregate::price_spec;
use crate::model::Candle;
use crate::model::Resolution;
use crate::model::TokenMetadata;
use crate::model::TradeInfo;
use crate::model::metadata_from_row;
use crate::model::resolutions;
use crate::series::Series;
use crate::series::series_map;
use crate::tier::BucketKey;
use crate::tier::CandlesStorage;
use crate::tier::MetadataStorage;
use crate::tier::TierError;
use crate::tier::apply_trade_upto;
use crate::tier::bucket_key;
use crate::tier::is_latest_before;
use crate::tier::metadata_matches;
use crate::tier::since_map;
use crate::tier::since_with_prev_map;

/// One stored candle with its full bucket key.
struct TierEntry {
    mint: String,
    resolution: Resolution,
    bucket: u64,
    candle: Candle,
}

/// The bucket key of a stored entry.
spec fn entry_key(e: TierEntry) -> BucketKey {
    bucket_key(e.mint@, e.resolution, e.bucket)
}

/// The entries read as a map; a later entry would shadow an earlier one with
/// the same key, but entries are kept key-distinct.
spec fn entries_map(s: Seq<TierEntry>) -> Map<BucketKey, Candle>
    decreases s.len(),
{
    if s.len() == 0 {
        Map::empty()
    } else {
        entries_map(s.drop_last()).insert(entry_key(s.last()), s.last().candle)
    }
}

/// No two entries share a bucket key.
spec fn unique_keys(s: Seq<TierEntry>) -> bool {
    forall|i: int, j: int| 0 <= i < j < s.len() ==> entry_key(s[i]) != entry_key(s[j])
}

/// A key is in the map exactly when some entry carries it.
proof fn lemma_entries_map_contains(s: Seq<TierEntry>, k: BucketKey)
    ensures
        entries_map(s).dom().contains(k) <==> exists|i: int|
            0 <= i < s.len() && entry_key(s[i]) == k,
    decreases s.len(),
{
    if s.len() > 0 {
        lemma_entries_map_contains(s.drop_last(), k);
        if entry_key(s.last()) == k {
            assert(entry_key(s[s.len() - 1]) == k);
        } else if entries_map(s).dom().contains(k) {
            let i = choose|i: int| 0 <= i < s.drop_last().len() && entry_key(s.drop_last()[i]) == k;
            assert(entry_key(s[i]) == k);
        } else if exists|i: int| 0 <= i < s.len() && entry_key(s[i]) == k {
            let i = choose|i: int| 0 <= i < s.len() && entry_key(s[i]) == k;
            assert(entry_key(s.drop_last()[i]) == k);
        }
    }
}

/// With key-distinct entries, the map stores each entry's own candle.
proof fn lemma_entries_map_value(s: Seq<TierEntry>, i: int)
    requires
        unique_keys(s),
        0 <= i < s.len(),
    ensures
        entries_map(s).dom().contains(entry_key(s[i])),
        entries_map(s)[entry_key(s[i])] == s[i].candle,
    decreases s.len(),
{
    if i < s.len() - 1 {
        assert(forall|j: int| 0 <= j < s.drop_last().len() ==> s.drop_last()[j] == s[j]);
        lemma_entries_map_value(s.drop_last(), i);
        assert(entry_key(s[i]) != entry_key(s[s.len() - 1]));
    }
}

/// Replacing the entry at `i` by one with the same key updates the map at
/// that key.
proof fn lemma_entries_map_update(s: Seq<TierEntry>, i: int, e: TierEntry)
    requires
        unique_keys(s),
        0 <= i < s.len(),
        entry_key(e) == entry_key(s[i]),
    ensures
        unique_keys(s.update(i, e)),
        entries_map(s.update(i, e)) == entries_map(s).insert(entry_key(e), e.candle),
    decreases s.len(),
{
    let s1 = s.update(i, e);
    assert(forall|j: int| 0 <= j < s.len() && j != i ==> s1[j] == s[j]);
    if i == s.len() - 1 {
        assert(s1.drop_last() =~= s.drop_last());
        assert(entries_map(s1) =~= entries_map(s).insert(entry_key(e), e.candle));
    } else {
        assert(forall|j: int| 0 <= j < s.drop_last().len() ==> s.drop_last()[j] == s[j]);
        lemma_entries_map_update(s.drop_last(), i, e);
        assert(s1.drop_last() =~= s.drop_last().update(i, e));
        assert(s1.last() == s.last());
        assert(entry_key(s.last()) != entry_key(e));
        assert(entries_map(s1) =~= entries_map(s).insert(entry_key(e), e.candle));
    }
}

/// One stored metadata row.
struct TokenRow {
    mint: String,
    metadata: Option<TokenMetadata>,
}

/// The rows read as a map from asset identifier to optional metadata.
spec fn rows_map(s: Seq<TokenRow>) -> Map<Seq<char>, Option<TokenMetadata>>
    decreases s.len(),
{
    if s.len() == 0 {
        Map::empty()
    } else {
        rows_map(s.drop_last()).insert(s.last().mint@, s.last().metadata)
    }
}

/// No two rows share an asset identifier.
spec fn unique_mints(s: Seq<TokenRow>) -> bool {
    forall|i: int, j: int| 0 <= i < j < s.len() ==> s[i].mint@ != s[j].mint@
}

/// An asset is in the map exactly when some row carries it.
proof fn lemma_rows_map_contains(s: Seq<TokenRow>, mint: Seq<char>)
    ensures
        rows_map(s).dom().contains(mint) <==> exists|i: int|
            0 <= i < s.len() && s[i].mint@ == mint,
    decreases s.len(),
{
    if s.len() > 0 {
        lemma_rows_map_contains(s.drop_last(), mint);
        if s.last().mint@ == mint {
            assert(s[s.len() - 1].mint@ == mint);
        } else if rows_map(s).dom().contains(mint) {
            let i = choose|i: int| 0 <= i < s.drop_last().len() && s.drop_last()[i].mint@ == mint;
            assert(s[i].mint@ == mint);
        } else if exists|i: int| 0 <= i < s.len() && s[i].mint@ == mint {
            let i = choose|i: int| 0 <= i < s.len() && s[i].mint@ == mint;
            assert(s.drop_last()[i].mint@ == mint);
        }
    }
}

/// With distinct rows, the map stores each row's own metadata.
proof fn lemma_rows_map_value(s: Seq<TokenRow>, i: int)
    requires
        unique_mints(s),
        0 <= i < s.len(),
    ensures
        rows_map(s).dom().contains(s[i].mint@),
        rows_map(s)[s[i].mint@] == s[i].metadata,
    decreases s.len(),
{
    if i < s.len() - 1 {
        assert(forall|j: int| 0 <= j < s.drop_last().len() ==> s.drop_last()[j] == s[j]);
        lemma_rows_map_value(s.drop_last(), i);
        assert(s[i].mint@ != s[s.len() - 1].mint@);
    }
}

/// Replacing the row at `i` by one with the same asset updates the map at
/// that asset.
proof fn lemma_rows_map_update(s: Seq<TokenRow>, i: int, r: TokenRow)
    requires
        unique_mints(s),
        0 <= i < s.len(),
        r.mint@ == s[i].mint@,
    ensures
        unique_mints(s.update(i, r)),
        rows_map(s.update(i, r)) == rows_map(s).insert(r.mint@, r.metadata),
    decreases s.len(),
{
    let s1 = s.update(i, r);
    assert(forall|j: int| 0 <= j < s.len() && j != i ==> s1[j] == s[j]);
    if i == s.len() - 1 {
        assert(s1.drop_last() =~= s.drop_last());
        assert(rows_map(s1) =~= rows_map(s).insert(r.mint@, r.metadata));
    } else {
        assert(forall|j: int| 0 <= j < s.drop_last().len() ==> s.drop_last()[j] == s[j]);
        lemma_rows_map_update(s.drop_last(), i, r);
        assert(s1.drop_last() =~= s.drop_last().update(i, r));
        assert(s1.last() == s.last());
        assert(s.last().mint@ != r.mint@);
        assert(rows_map(s1) =~= rows_map(s).insert(r.mint@, r.metadata));
    }
}

/// An in-memory tier holding candles and metadata rows, with an
/// availability switch for exercising failure paths.
pub struct MemTier {
    entries: Vec<TierEntry>,
    tokens: Vec<TokenRow>,
    available: bool,
}

impl MemTier {
    #[verifier::type_invariant]
    spec fn wf(self) -> bool {
        unique_keys(self.entries@) && unique_mints(self.tokens@)
    }

    /// Whether the tier currently answers calls.
    pub closed spec fn is_available(&self) -> bool {
        self.available
    }

    /// The tier's candle contents.
    pub closed spec fn candle_contents(&self) -> Map<BucketKey, Candle> {
        entries_map(self.entries@)
    }

    /// The tier's metadata rows.
    pub closed spec fn token_contents(&self) -> Map<Seq<char>, Option<TokenMetadata>> {
        rows_map(self.tokens@)
    }

    /// A fresh, empty, available tier.
    pub fn new() -> (r: MemTier)
        ensures
            r.candle_contents() == Map::<BucketKey, Candle>::empty(),
            r.token_contents() == Map::<Seq<char>, Option<TokenMetadata>>::empty(),
            r.is_available(),
    {
        MemTier { entries: Vec::new(), tokens: Vec::new(), available: true }
    }

    /// Switch the tier's availability; its contents stay as they are.
    pub fn set_available(&mut self, available: bool)
        ensures
            final(self).is_available() == available,
            final(self).candle_contents() == old(self).candle_contents(),
            final(self).token_contents() == old(self).token_contents(),
    {
        proof {
            use_type_invariant(&*self);
        }
        self.available = available;
    }

    /// Whether the tier currently answers calls.
    pub fn available(&self) -> (r: bool)
        ensures
            r == self.is_available(),
    {
        self.available
    }
}

/// The index of the entry carrying the given bucket key, if any.
fn find_entry(entries: &Vec<TierEntry>, mint: &String, resolution: Resolution, bucket: u64) -> (r:
    Option<usize>)
    ensures
        r matches Some(j) ==> j < entries@.len() && entry_key(entries@[j as int]) == bucket_key(
            mint@,
            resolution,
            bucket,
        ),
        r is None ==> forall|j: int|
            0 <= j < entries@.len() ==> entry_key(entries@[j]) != bucket_key(
                mint@,
                resolution,
                bucket,
            ),
{
    let n = entries.len();
    let mut j: usize = 0;
    while j < n
        invariant
            n == entries@.len(),
            j <= n,
            forall|k: int|
                0 <= k < j ==> entry_key(entries@[k]) != bucket_key(mint@, resolution, bucket),
        decreases n - j,
    {
        let e = &entries[j];
        if e.mint == *mint && e.resolution == resolution && e.bucket == bucket {
            return Option::Some(j);
        }
        j = j + 1;
    }
    Option::None
}

impl CandlesStorage for MemTier {
    open spec fn candles(&self) -> Map<BucketKey, Candle> {
        self.candle_contents()
    }

    open spec fn reads_fail(&self) -> bool {
        !self.is_available()
    }

    open spec fn writes_fail(&self) -> bool {
        !self.is_available()
    }

    open spec fn tokens(&self) -> Map<Seq<char>, Option<TokenMetadata>> {
        self.token_contents()
    }

    fn insert_trade(&mut self, timestamps: &Vec<u64>, info: &TradeInfo) -> (r: Result<
        (),
        TierError,
    >)
        ensures
            final(self).is_available() == old(self).is_available(),
    {
        proof {
            use_type_invariant(&*self);
        }
        if !self.available {
            return Result::Err(TierError::Unavailable);
        }
        let price = crate::aggregate::trade_price(info.sol_amount, info.token_amount).unwrap();
        let amount = info.token_amount;
        let all = Resolution::all();
        let ghost m0 = entries_map(self.entries@);
        let mut entries: Vec<TierEntry> = Vec::new();
        core::mem::swap(&mut self.entries, &mut entries);
        let mut i: usize = 0;
        while i < 6
            invariant
                timestamps@.len() == 6,
                all@ == resolutions(),
                i <= 6,
                price == price_spec(info.sol_amount, info.token_amount) as u128,
                amount == info.token_amount,
                unique_keys(entries@),
                entries_map(entries@) == apply_trade_upto(
                    m0,
                    info.mint_acc@,
                    timestamps@,
                    price,
                    amount,
                    i as int,
                ),
            decreases 6 - i,
        {
            let resolution = all[i];
            let bucket = timestamps[i];
            let ghost s_before = entries@;
            let ghost key = bucket_key(info.mint_acc@, resolution, bucket);
            match find_entry(&entries, &info.mint_acc, resolution, bucket) {
                Option::Some(j) => {
                    proof {
                        lemma_entries_map_value(s_before, j as int);
                    }
                    let prev = entries[j].candle;
                    let merged = merge_candle(Option::Some(prev), price, amount);
                    let e = TierEntry {
                        mint: info.mint_acc.clone(),
                        resolution,
                        bucket,
                        candle: merged,
                    };
                    proof {
                        lemma_entries_map_update(s_before, j as int, e);
                    }
                    entries.set(j, e);
                },
                Option::None => {
                    proof {
                        lemma_entries_map_contains(s_before, key);
                    }
                    let merged = merge_candle(Option::None, price, amount);
                    entries.push(
                        TierEntry { mint: info.mint_acc.clone(), resolution, bucket, candle: merged },
                    );
                    proof {
                        assert(entries@.drop_last() =~= s_before);
                        assert(forall|k: int|
                            0 <= k < s_before.len() ==> entries@[k] == s_before[k]);
                    }
                },
            }
            i = i + 1;
        }
        self.entries = entries;
        Result::Ok(())
    }

    fn trades_since(&self, mint_acc: &str, from_timestamp: u64, resolution: Resolution) -> (r:
        Result<Series, TierError>)
    {
        proof {
            use_type_invariant(self);
        }
        if !self.available {
            return Result::Err(TierError::Unavailable);
        }
        let mint_s: String = mint_acc.to_owned();
        let out = collect_since(&self.entries, &mint_s, resolution, from_timestamp);
        proof {
            lemma_since_of_matches_map(self.entries@, mint_acc@, resolution, from_timestamp);
        }
        Result::Ok(out)
    }

    fn trades_since_with_one_previous(
        &self,
        mint_acc: &str,
        from_timestamp: u64,
        resolution: Resolution,
    ) -> (r: Result<Series, TierError>)
    {
        proof {
            use_type_invariant(self);
        }
        if !self.available {
            return Result::Err(TierError::Unavailable);
        }
        let mint_s: String = mint_acc.to_owned();
        let mut out = collect_since(&self.entries, &mint_s, resolution, from_timestamp);
        proof {
            lemma_since_of_matches_map(self.entries@, mint_acc@, resolution, from_timestamp);
        }
        let ghost m = entries_map(self.entries@);
        let best = best_before(&self.entries, &mint_s, resolution, from_timestamp);
        match best {
            Option::Some((b, c)) => {
                out.insert(b, c);
                proof {
                    lemma_with_prev_insert(m, mint_acc@, resolution, from_timestamp, b, c, self.entries@);
                }
            },
            Option::None => {
                proof {
                    lemma_with_prev_none(m, mint_acc@, resolution, from_timestamp, self.entries@);
                }
            },
        }
        Result::Ok(out)
    }

    fn last_trade(&self, mint_acc: &str, resolution: Resolution) -> (r: Result<
        (u64, Candle),
        TierError,
    >)
    {
        proof {
            use_type_invariant(self);
        }
        if !self.available {
            return Result::Err(TierError::Unavailable);
        }
        let mint_s: String = mint_acc.to_owned();
        let ghost s = self.entries@;
        let ghost m = entries_map(s);
        let n = self.entries.len();
        let mut best: Option<(u64, Candle)> = Option::None;
        let mut i: usize = 0;
        while i < n
            invariant
                n == s.len(),
                self.entries@ == s,
                mint_s@ == mint_acc@,
                i <= n,
                best is None ==> forall|j: int|
                    0 <= j < i ==> !entry_matches(s[j], mint_acc@, resolution),
                best matches Some(p) ==> {
                    &&& exists|j: int|
                        0 <= j < i && entry_matches(s[j], mint_acc@, resolution)
                            && s[j].bucket == p.0 && s[j].candle == p.1
                    &&& forall|j: int|
                        0 <= j < i && entry_matches(s[j], mint_acc@, resolution)
                            ==> s[j].bucket <= p.0
                },
            decreases n - i,
        {
            let e = &self.entries[i];
            if e.mint == mint_s && e.resolution == resolution {
                let better = match best {
                    Option::Some((bb, _)) => e.bucket > bb,
                    Option::None => true,
                };
                if better {
                    best = Option::Some((e.bucket, e.candle));
                }
                proof {
                    assert(entry_matches(s[i as int], mint_acc@, resolution));
                }
            }
            i = i + 1;
        }
        match best {
            Option::Some((b, c)) => {
                proof {
                    let j = choose|j: int|
                        0 <= j < s.len() && entry_matches(s[j], mint_acc@, resolution)
                            && s[j].bucket == b && s[j].candle == c;
                    lemma_entries_map_value(s, j);
                    assert forall|b2: u64|
                        m.dom().contains(bucket_key(mint_acc@, resolution, b2)) implies b2 <= b by {
                        lemma_entries_map_contains(s, bucket_key(mint_acc@, resolution, b2));
                        let j2 = choose|j2: int|
                            0 <= j2 < s.len() && entry_key(s[j2]) == bucket_key(
                                mint_acc@,
                                resolution,
                                b2,
                            );
                        assert(entry_matches(s[j2], mint_acc@, resolution));
                    }
                }
                Result::Ok((b, c))
            },
            Option::None => {
                proof {
                    assert forall|b: u64|
                        !m.dom().contains(bucket_key(mint_acc@, resolution, b)) by {
                        lemma_entries_map_contains(s, bucket_key(mint_acc@, resolution, b));
                        if m.dom().contains(bucket_key(mint_acc@, resolution, b)) {
                            let j = choose|j: int|
                                0 <= j < s.len() && entry_key(s[j]) == bucket_key(
                                    mint_acc@,
                                    resolution,
                                    b,
                                );
                            assert(entry_matches(s[j], mint_acc@, resolution));
                        }
                    }
                }
                Result::Err(TierError::Unavailable)
            },
        }
    }
}

/// Whether an entry belongs to the series of `(mint, resolution)`.
spec fn entry_matches(e: TierEntry, mint: Seq<char>, resolution: Resolution) -> bool {
    e.mint@ == mint && e.resolution == resolution
}

/// The buckets at or after `from` among a prefix of the entries.
spec fn since_of(s: Seq<TierEntry>, mint: Seq<char>, resolution: Resolution, from: u64) -> Map<
    u64,
    Candle,
>
    decreases s.len(),
{
    if s.len() == 0 {
        Map::empty()
    } else {
        let m = since_of(s.drop_last(), mint, resolution, from);
        let e = s.last();
        if entry_matches(e, mint, resolution) && e.bucket >= from {
            m.insert(e.bucket, e.candle)
        } else {
            m
        }
    }
}

/// Scanning the entries collects exactly the range read of the tier's map.
proof fn lemma_since_of_matches_map(
    s: Seq<TierEntry>,
    mint: Seq<char>,
    resolution: Resolution,
    from: u64,
)
    ensures
        since_of(s, mint, resolution, from) == since_map(entries_map(s), mint, resolution, from),
    decreases s.len(),
{
    if s.len() == 0 {
        assert(since_of(s, mint, resolution, from) =~= since_map(
            entries_map(s),
            mint,
            resolution,
            from,
        ));
    } else {
        lemma_since_of_matches_map(s.drop_last(), mint, resolution, from);
        assert(since_of(s, mint, resolution, from) =~= since_map(
            entries_map(s),
            mint,
            resolution,
            from,
        ));
    }
}

/// Collect the entries of `(mint, resolution)` at or after `from` into an
/// ordered series.
fn collect_since(
    entries: &Vec<TierEntry>,
    mint: &String,
    resolution: Resolution,
    from: u64,
) -> (r: Series)
    ensures
        series_map(r@) == since_of(entries@, mint@, resolution, from),
{
    let ghost s = entries@;
    let n = entries.len();
    let mut out = Series::new();
    let mut i: usize = 0;
    while i < n
        invariant
            n == s.len(),
            entries@ == s,
            i <= n,
            series_map(out@) == since_of(s.take(i as int), mint@, resolution, from),
        decreases n - i,
    {
        proof {
            assert(s.take(i + 1 as int).drop_last() =~= s.take(i as int));
            assert(s.take(i + 1 as int).last() == s[i as int]);
        }
        let e = &entries[i];
        if e.mint == *mint && e.resolution == resolution && e.bucket >= from {
            out.insert(e.bucket, e.candle);
        }
        i = i + 1;
    }
    proof {
        assert(s.take(n as int) =~= s);
    }
    out
}

/// The greatest bucket of `(mint, resolution)` strictly before `from`, with
/// its candle, if any entry lies before `from`.
fn best_before(
    entries: &Vec<TierEntry>,
    mint: &String,
    resolution: Resolution,
    from: u64,
) -> (r: Option<(u64, Candle)>)
    ensures
        r is None ==> forall|j: int|
            0 <= j < entries@.len() ==> !(entry_matches(entries@[j], mint@, resolution)
                && entries@[j].bucket < from),
        r matches Some(p) ==> {
            &&& p.0 < from
            &&& exists|j: int|
                0 <= j < entries@.len() && entry_matches(entries@[j], mint@, resolution)
                    && entries@[j].bucket == p.0 && entries@[j].candle == p.1
            &&& forall|j: int|
                0 <= j < entries@.len() && entry_matches(entries@[j], mint@, resolution)
                    && entries@[j].bucket < from ==> entries@[j].bucket <= p.0
        },
{
    let ghost s = entries@;
    let n = entries.len();
    let mut best: Option<(u64, Candle)> = Option::None;
    let mut i: usize = 0;
    while i < n
        invariant
            n == s.len(),
            entries@ == s,
            i <= n,
            best is None ==> forall|j: int|
                0 <= j < i ==> !(entry_matches(s[j], mint@, resolution) && s[j].bucket < from),
            best matches Some(p) ==> {
                &&& p.0 < from
                &&& exists|j: int|
                    0 <= j < i && entry_matches(s[j], mint@, resolution) && s[j].bucket == p.0
                        && s[j].candle == p.1
                &&& forall|j: int|
                    0 <= j < i && entry_matches(s[j], mint@, resolution) && s[j].bucket < from
                        ==> s[j].bucket <= p.0
            },
        decreases n - i,
    {
        let e = &entries[i];
        if e.mint == *mint && e.resolution == resolution && e.bucket < from {
            proof {
                assert(entry_matches(s[i as int], mint@, resolution));
            }
            let better = match best {
                Option::Some((bb, _)) => e.bucket > bb,
                Option::None => true,
            };
            if better {
                best = Option::Some((e.bucket, e.candle));
            }
        }
        i = i + 1;
    }
    best
}

/// The index of the row for `mint`, if any.
fn find_row(rows: &Vec<TokenRow>, mint: &String) -> (r: Option<usize>)
    ensures
        r matches Some(j) ==> j < rows@.len() && rows@[j as int].mint@ == mint@,
        r is None ==> forall|j: int| 0 <= j < rows@.len() ==> rows@[j].mint@ != mint@,
{
    let n = rows.len();
    let mut j: usize = 0;
    while j < n
        invariant
            n == rows@.len(),
            j <= n,
            forall|k: int| 0 <= k < j ==> rows@[k].mint@ != mint@,
        decreases n - j,
    {
        if rows[j].mint == *mint {
            return Option::Some(j);
        }
        j = j + 1;
    }
    Option::None
}

/// What a reader sees for a stored row: its metadata, or the placeholder
/// fields for a row without metadata.
fn resolve_metadata(metadata: &Option<TokenMetadata>) -> (r: TokenMetadata)
    ensures
        metadata_matches(*metadata, r),
{
    match metadata {
        Option::Some(md) => md.duplicate(),
        Option::None => metadata_from_row(Option::None, Option::None, Option::None),
    }
}

impl MetadataStorage for MemTier {
    fn insert_token_metadata(&mut self, mint_acc: String, metadata: Option<TokenMetadata>) -> (r:
        Result<(), TierError>)
        ensures
            final(self).is_available() == old(self).is_available(),
    {
        proof {
            use_type_invariant(&*self);
        }
        if !self.available {
            return Result::Err(TierError::Unavailable);
        }
        let mut rows: Vec<TokenRow> = Vec::new();
        core::mem::swap(&mut self.tokens, &mut rows);
        let ghost s0 = rows@;
        match find_row(&rows, &mint_acc) {
            Option::Some(j) => {
                proof {
                    lemma_rows_map_contains(s0, mint_acc@);
                    assert(s0[j as int].mint@ == mint_acc@);
                }
                match metadata {
                    Option::Some(md) => {
                        let row = TokenRow { mint: mint_acc, metadata: Option::Some(md) };
                        proof {
                            lemma_rows_map_update(s0, j as int, row);
                        }
                        rows.set(j, row);
                    },
                    Option::None => {},
                }
            },
            Option::None => {
                proof {
                    lemma_rows_map_contains(s0, mint_acc@);
                }
                rows.push(TokenRow { mint: mint_acc, metadata });
                proof {
                    assert(rows@.drop_last() =~= s0);
                    assert(forall|k: int| 0 <= k < s0.len() ==> rows@[k] == s0[k]);
                }
            },
        }
        self.tokens = rows;
        Result::Ok(())
    }

    fn get_token_metadata(&self, mint_acc: &str) -> (r: Result<Option<TokenMetadata>, TierError>)
    {
        proof {
            use_type_invariant(self);
        }
        if !self.available {
            return Result::Err(TierError::Unavailable);
        }
        let mint_s: String = mint_acc.to_owned();
        match find_row(&self.tokens, &mint_s) {
            Option::Some(j) => {
                proof {
                    lemma_rows_map_value(self.tokens@, j as int);
                }
                Result::Ok(Option::Some(resolve_metadata(&self.tokens[j].metadata)))
            },
            Option::None => {
                proof {
                    lemma_rows_map_contains(self.tokens@, mint_acc@);
                }
                Result::Ok(Option::None)
            },
        }
    }

    fn get_tokens(&self) -> (r: Result<Vec<(String, TokenMetadata)>, TierError>)
    {
        proof {
            use_type_invariant(self);
        }
        if !self.available {
            return Result::Err(TierError::Unavailable);
        }
        let ghost s = self.tokens@;
        let n = self.tokens.len();
        let mut out: Vec<(String, TokenMetadata)> = Vec::new();
        let mut i: usize = 0;
        while i < n
            invariant
                n == s.len(),
                self.tokens@ == s,
                i <= n,
                out@.len() == i,
                forall|k: int|
                    0 <= k < i ==> out@[k].0@ == s[k].mint@ && metadata_matches(
                        s[k].metadata,
                        out@[k].1,
                    ),
            decreases n - i,
        {
            let row = &self.tokens[i];
            let visible = resolve_metadata(&row.metadata);
            out.push((row.mint.clone(), visible));
            i = i + 1;
        }
        proof {
            let m = rows_map(s);
            assert forall|k: int|
                0 <= k < out@.len() implies m.dom().contains(out@[k].0@) && metadata_matches(
                m[out@[k].0@],
                out@[k].1,
            ) by {
                lemma_rows_map_value(s, k);
            }
            assert forall|k: int, l: int|
                0 <= k < l < out@.len() implies out@[k].0@ != out@[l].0@ by {
                assert(out@[k].0@ == s[k].mint@);
                assert(out@[l].0@ == s[l].mint@);
            }
            assert forall|mint: Seq<char>| m.dom().contains(mint) implies exists|k: int|
                0 <= k < out@.len() && out@[k].0@ == mint by {
                lemma_rows_map_contains(s, mint);
                let j = choose|j: int| 0 <= j < s.len() && s[j].mint@ == mint;
                assert(out@[j].0@ == mint);
            }
        }
        Result::Ok(out)
    }
}

/// When no bucket of `(mint, resolution)` lies before `from`, the range read
/// already equals the seeded range read.
proof fn lemma_with_prev_none(
    m: Map<BucketKey, Candle>,
    mint: Seq<char>,
    resolution: Resolution,
    from: u64,
    s: Seq<TierEntry>,
)
    requires
        m == entries_map(s),
        forall|j: int|
            0 <= j < s.len() ==> !(entry_matches(s[j], mint, resolution) && s[j].bucket < from),
    ensures
        since_map(m, mint, resolution, from) == since_with_prev_map(m, mint, resolution, from),
{
    assert forall|b: u64|
        since_with_prev_map(m, mint, resolution, from).dom().contains(b) implies b >= from by {
        if b < from {
            lemma_entries_map_contains(s, bucket_key(mint, resolution, b));
            let j = choose|j: int|
                0 <= j < s.len() && entry_key(s[j]) == bucket_key(mint, resolution, b);
            assert(entry_matches(s[j], mint, resolution) && s[j].bucket < from);
        }
    }
    assert(since_map(m, mint, resolution, from) =~= since_with_prev_map(m, mint, resolution, from));
}

/// Adding the greatest bucket before `from` to the range read gives the
/// seeded range read.
proof fn lemma_with_prev_insert(
    m: Map<BucketKey, Candle>,
    mint: Seq<char>,
    resolution: Resolution,
    from: u64,
    b: u64,
    c: Candle,
    s: Seq<TierEntry>,
)
    requires
        m == entries_map(s),
        unique_keys(s),
        b < from,
        exists|j: int|
            0 <= j < s.len() && entry_matches(s[j], mint, resolution) && s[j].bucket == b
                && s[j].candle == c,
        forall|j: int|
            0 <= j < s.len() && entry_matches(s[j], mint, resolution) && s[j].bucket < from
                ==> s[j].bucket <= b,
    ensures
        since_map(m, mint, resolution, from).insert(b, c) == since_with_prev_map(
            m,
            mint,
            resolution,
            from,
        ),
{
    let j = choose|j: int|
        0 <= j < s.len() && entry_matches(s[j], mint, resolution) && s[j].bucket == b
            && s[j].candle == c;
    lemma_entries_map_value(s, j);
    assert(is_latest_before(m, mint, resolution, from, b)) by {
        assert forall|b2: u64|
            b2 < from && m.dom().contains(bucket_key(mint, resolution, b2)) implies b2 <= b by {
            lemma_entries_map_contains(s, bucket_key(mint, resolution, b2));
            let j2 = choose|j2: int|
                0 <= j2 < s.len() && entry_key(s[j2]) == bucket_key(mint, resolution, b2);
            assert(entry_matches(s[j2], mint, resolution) && s[j2].bucket < from);
        }
    }
    assert forall|b2: u64|
        since_with_prev_map(m, mint, resolution, from).dom().contains(b2) && b2 < from
        implies b2 == b by {
        assert(is_latest_before(m, mint, resolution, from, b2));
    }
    assert(since_map(m, mint, resolution, from).insert(b, c) =~= since_with_prev_map(
        m,
        mint,
        resolution,
        from,
    ));
}

} // verus!
