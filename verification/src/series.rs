//! An ordered mapping from bucket start to candle.
//!
//! Range reads of the storage tiers return their candles as a `Series`:
//! entries sorted by strictly increasing bucket start, viewable both as the
//! ordered sequence (for streaming) and as a map (for stating contracts).

use vstd::prelude::*;

verus! {

use crate::model::Candle;

/// Timestamps strictly increase along the sequence.
pub open spec fn sorted(s: Seq<(u64, Candle)>) -> bool {
    forall|i: int, j: int| 0 <= i < j < s.len() ==> s[i].0 < s[j].0
}

/// Whether some entry carries the bucket start `t`.
pub open spec fn series_has(s: Seq<(u64, Candle)>, t: u64) -> bool {
    exists|i: int| 0 <= i < s.len() && s[i].0 == t
}

/// The candle stored at bucket start `t` (meaningful only when present).
pub open spec fn series_at(s: Seq<(u64, Candle)>, t: u64) -> Candle
    recommends
        series_has(s, t),
{
    s[choose|i: int| 0 <= i < s.len() && s[i].0 == t].1
}

/// The sequence of entries, read as a map from bucket start to candle.
pub open spec fn series_map(s: Seq<(u64, Candle)>) -> Map<u64, Candle> {
    Map::new(|t: u64| series_has(s, t), |t: u64| series_at(s, t))
}

/// In a sorted sequence each entry is the one `series_at` finds for its own
/// timestamp.
pub proof fn lemma_series_entry(s: Seq<(u64, Candle)>, i: int)
    requires
        sorted(s),
        0 <= i < s.len(),
    ensures
        series_has(s, s[i].0),
        series_at(s, s[i].0) == s[i].1,
        series_map(s)[s[i].0] == s[i].1,
{
    assert(series_has(s, s[i].0));
    let j = choose|j: int| 0 <= j < s.len() && s[j].0 == s[i].0;
    if i < j || j < i {
        assert(false);
    }
}

/// The latest entry at or before `t`, scanning from the end.
pub open spec fn latest_spec(s: Seq<(u64, Candle)>, t: u64) -> Option<(u64, Candle)>
    decreases s.len(),
{
    if s.len() == 0 {
        Option::None
    } else if s.last().0 <= t {
        Option::Some(s.last())
    } else {
        latest_spec(s.drop_last(), t)
    }
}

/// What `latest_spec` finds in a sorted sequence: nothing when every entry
/// lies after `t`, otherwise the greatest entry at or before `t`.
pub proof fn lemma_latest_spec(s: Seq<(u64, Candle)>, t: u64)
    requires
        sorted(s),
    ensures
        latest_spec(s, t) is None ==> forall|i: int| 0 <= i < s.len() ==> s[i].0 > t,
        latest_spec(s, t) matches Some(p) ==> {
            &&& series_has(s, p.0)
            &&& series_at(s, p.0) == p.1
            &&& p.0 <= t
            &&& forall|i: int| 0 <= i < s.len() && s[i].0 <= t ==> s[i].0 <= p.0
        },
    decreases s.len(),
{
    if s.len() > 0 {
        if s.last().0 <= t {
            lemma_series_entry(s, s.len() - 1);
        } else {
            lemma_latest_spec(s.drop_last(), t);
            let dl = s.drop_last();
            assert(forall|i: int| 0 <= i < dl.len() ==> s[i] == dl[i]);
            match latest_spec(dl, t) {
                Option::Some(p) => {
                    let i = choose|i: int| 0 <= i < dl.len() && dl[i].0 == p.0;
                    lemma_series_entry(dl, i);
                    lemma_series_entry(s, i);
                },
                Option::None => {},
            }
        }
    }
}

/// An ordered candle series, one entry per populated bucket.
pub struct Series {
    entries: Vec<(u64, Candle)>,
}

impl View for Series {
    type V = Seq<(u64, Candle)>;

    closed spec fn view(&self) -> Seq<(u64, Candle)> {
        self.entries@
    }
}

impl Series {
    /// Every series is sorted by strictly increasing bucket start; this is
    /// a type invariant, available through `use_type_invariant`.
    #[verifier::type_invariant]
    pub open spec fn wf(self) -> bool {
        sorted(self@)
    }

    /// An empty series.
    pub fn new() -> (r: Series)
        ensures
            r@ == Seq::<(u64, Candle)>::empty(),
    {
        Series { entries: Vec::new() }
    }

    /// Number of populated buckets.
    pub fn len(&self) -> (r: usize)
        ensures
            r == self@.len(),
    {
        self.entries.len()
    }

    /// The `i`-th entry in timestamp order.
    pub fn entry(&self, i: usize) -> (r: (u64, Candle))
        requires
            i < self@.len(),
        ensures
            r == self@[i as int],
    {
        self.entries[i]
    }

    /// The candle of the bucket starting at `t`, if that bucket is populated.
    pub fn get(&self, t: u64) -> (r: Option<Candle>)
        ensures
            r is Some <==> series_map(self@).dom().contains(t),
            r matches Some(c) ==> series_map(self@)[t] == c,
    {
        proof {
            use_type_invariant(self);
        }
        let n = self.entries.len();
        let mut i: usize = 0;
        while i < n
            invariant
                n == self@.len(),
                i <= n,
                sorted(self@),
                forall|j: int| 0 <= j < i ==> self@[j].0 != t,
            decreases n - i,
        {
            let (ts, candle) = self.entries[i];
            if ts == t {
                proof {
                    lemma_series_entry(self@, i as int);
                }
                return Option::Some(candle);
            }
            i = i + 1;
        }
        assert(!series_has(self@, t));
        Option::None
    }

    /// The latest populated bucket at or before `t`, with its candle.
    pub fn latest_at_or_before(&self, t: u64) -> (r: Option<(u64, Candle)>)
        ensures
            r == latest_spec(self@, t),
    {
        proof {
            use_type_invariant(self);
            assert(self@.take(self@.len() as int) =~= self@);
        }
        let mut i: usize = self.entries.len();
        while i > 0
            invariant
                i <= self@.len(),
                sorted(self@),
                latest_spec(self@, t) == latest_spec(self@.take(i as int), t),
            decreases i,
        {
            proof {
                assert(self@.take(i as int).drop_last() =~= self@.take(i as int - 1));
                assert(self@.take(i as int).last() == self@[i as int - 1]);
            }
            let (ts, candle) = self.entries[i - 1];
            if ts <= t {
                return Option::Some((ts, candle));
            }
            i = i - 1;
        }
        assert(self@.take(0) =~= Seq::<(u64, Candle)>::empty());
        Option::None
    }

    /// Insert or replace the candle of the bucket starting at `t`.
    pub fn insert(&mut self, t: u64, c: Candle)
        ensures
            series_map(final(self)@) == series_map(old(self)@).insert(t, c),
            final(self)@.len() <= old(self)@.len() + 1,
    {
        proof {
            use_type_invariant(&*self);
        }
        let mut entries: Vec<(u64, Candle)> = Vec::new();
        core::mem::swap(&mut self.entries, &mut entries);
        let ghost s0 = entries@;
        let n = entries.len();
        let mut pos: usize = 0;
        while pos < n && entries[pos].0 < t
            invariant
                entries@ == s0,
                n == s0.len(),
                pos <= n,
                forall|j: int| 0 <= j < pos ==> s0[j].0 < t,
            decreases n - pos,
        {
            pos = pos + 1;
        }
        proof {
            assert(forall|j: int| pos <= j < s0.len() ==> s0[j].0 >= t) by {
                assert(forall|j: int| pos < j < s0.len() ==> s0[pos as int].0 < s0[j].0);
            }
        }
        if pos < n && entries[pos].0 == t {
            entries[pos] = (t, c);
            proof {
                lemma_insert_map_replace(s0, entries@, pos as int, t, c);
            }
        } else {
            entries.insert(pos, (t, c));
            proof {
                lemma_insert_map_fresh(s0, entries@, pos as int, t, c);
            }
        }
        self.entries = entries;
    }
}

/// Replacing the entry at `pos`, whose timestamp is `t`, updates the map at
/// `t` and keeps the sequence sorted.
proof fn lemma_insert_map_replace(s0: Seq<(u64, Candle)>, s1: Seq<(u64, Candle)>, pos: int, t: u64, c: Candle)
    requires
        sorted(s0),
        0 <= pos < s0.len(),
        s0[pos].0 == t,
        s1 == s0.update(pos, (t, c)),
    ensures
        sorted(s1),
        series_map(s1) == series_map(s0).insert(t, c),
{
    assert(sorted(s1));
    assert forall|u: u64| series_has(s1, u) implies series_map(s0).insert(t, c).dom().contains(u) by {
        let i = choose|i: int| 0 <= i < s1.len() && s1[i].0 == u;
        if i != pos {
            assert(s0[i].0 == u);
        }
    }
    assert forall|u: u64| series_map(s0).insert(t, c).dom().contains(u) implies series_has(s1, u) by {
        if u == t {
            assert(s1[pos].0 == u);
        } else {
            let i = choose|i: int| 0 <= i < s0.len() && s0[i].0 == u;
            assert(s1[i].0 == u);
        }
    }
    assert forall|u: u64| series_has(s1, u) implies series_at(s1, u)
        == series_map(s0).insert(t, c)[u] by {
        if u == t {
            lemma_series_entry(s1, pos);
        } else {
            let i = choose|i: int| 0 <= i < s0.len() && s0[i].0 == u;
            lemma_series_entry(s0, i);
            lemma_series_entry(s1, i);
        }
    }
    assert(series_map(s1) =~= series_map(s0).insert(t, c));
}

/// Inserting a fresh entry at the sort position `pos` adds `t` to the map
/// and keeps the sequence sorted.
proof fn lemma_insert_map_fresh(s0: Seq<(u64, Candle)>, s1: Seq<(u64, Candle)>, pos: int, t: u64, c: Candle)
    requires
        sorted(s0),
        0 <= pos <= s0.len(),
        forall|j: int| 0 <= j < pos ==> s0[j].0 < t,
        forall|j: int| pos <= j < s0.len() ==> s0[j].0 > t,
        s1 == s0.insert(pos, (t, c)),
    ensures
        sorted(s1),
        series_map(s1) == series_map(s0).insert(t, c),
{
    assert forall|i: int, j: int| 0 <= i < j < s1.len() implies s1[i].0 < s1[j].0 by {
        if i < pos {
            assert(s1[i] == s0[i]);
        } else if i > pos {
            assert(s1[i] == s0[i - 1]);
        }
        if j < pos {
            assert(s1[j] == s0[j]);
        } else if j > pos {
            assert(s1[j] == s0[j - 1]);
        }
    }
    assert forall|u: u64| series_has(s1, u) implies series_map(s0).insert(t, c).dom().contains(u) by {
        let i = choose|i: int| 0 <= i < s1.len() && s1[i].0 == u;
        if i < pos {
            assert(s0[i].0 == u);
        } else if i > pos {
            assert(s0[i - 1].0 == u);
        }
    }
    assert forall|u: u64| series_map(s0).insert(t, c).dom().contains(u) implies series_has(s1, u) by {
        if u == t {
            assert(s1[pos].0 == u);
        } else {
            let i = choose|i: int| 0 <= i < s0.len() && s0[i].0 == u;
            if i < pos {
                assert(s1[i].0 == u);
            } else {
                assert(s1[i + 1].0 == u);
            }
        }
    }
    assert forall|u: u64| series_has(s1, u) implies series_at(s1, u)
        == series_map(s0).insert(t, c)[u] by {
        if u == t {
            lemma_series_entry(s1, pos);
        } else {
            let i = choose|i: int| 0 <= i < s0.len() && s0[i].0 == u;
            lemma_series_entry(s0, i);
            if i < pos {
                lemma_series_entry(s1, i);
            } else {
                lemma_series_entry(s1, i + 1);
            }
        }
    }
    assert(series_map(s1) =~= series_map(s0).insert(t, c));
}

} // verus!
