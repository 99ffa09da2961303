//! Core data model: time resolutions, candles, raw trades and asset metadata.
//!
//! Prices are fixed-point integers: a price `p` stands for the rational
//! `p / PRICE_SCALE`. Timestamps are Unix seconds.

use vstd::prelude::*;

verus! {

use vstd::arithmetic::div_mod::lemma_div_multiples_vanish;
use vstd::arithmetic::div_mod::lemma_fundamental_div_mod;
use vstd::string::StrSliceExecFns;

/// Scale of fixed-point prices: a stored price `p` means `p / PRICE_SCALE`.
pub const PRICE_SCALE: u64 = 1_000_000_000;

/// One of the six fixed time resolutions a candle can summarize.
#[derive(Clone, Copy, Debug, PartialEq, Eq, Structural)]
pub enum Resolution {
    S1,
    M1,
    M5,
    M15,
    H1,
    D1,
}

/// The six resolutions, in the order they are always processed.
pub open spec fn resolutions() -> Seq<Resolution> {
    seq![
        Resolution::S1,
        Resolution::M1,
        Resolution::M5,
        Resolution::M15,
        Resolution::H1,
        Resolution::D1,
    ]
}

/// `t` rounded down to a multiple of the bucket width `w`.
pub open spec fn align_down(t: int, w: int) -> int {
    (t / w) * w
}

impl Resolution {
    /// Bucket width in seconds.
    pub open spec fn width(self) -> u64 {
        match self {
            Resolution::S1 => 1,
            Resolution::M1 => 60,
            Resolution::M5 => 300,
            Resolution::M15 => 900,
            Resolution::H1 => 3600,
            Resolution::D1 => 86400,
        }
    }

    /// The resolution's short wire name, as a sequence of characters.
    pub open spec fn name_spec(self) -> Seq<char> {
        match self {
            Resolution::S1 => "S1"@,
            Resolution::M1 => "M1"@,
            Resolution::M5 => "M5"@,
            Resolution::M15 => "M15"@,
            Resolution::H1 => "H1"@,
            Resolution::D1 => "D1"@,
        }
    }

    /// Bucket width of this resolution in seconds.
    pub fn to_seconds(&self) -> (r: u64)
        ensures
            r == self.width(),
            1 <= r <= 86400,
    {
        match self {
            Resolution::S1 => 1,
            Resolution::M1 => 60,
            Resolution::M5 => 300,
            Resolution::M15 => 900,
            Resolution::H1 => 3600,
            Resolution::D1 => 86400,
        }
    }

    /// Bucket width of this resolution in milliseconds.
    pub fn to_millis(&self) -> (r: u64)
        ensures
            r == 1000 * self.width(),
    {
        self.to_seconds() * 1000
    }

    /// Synonym of [`Resolution::to_seconds`], kept because both spellings are
    /// part of the public surface.
    pub fn as_seconds(&self) -> (r: u64)
        ensures
            r == self.width(),
    {
        self.to_seconds()
    }

    /// Synonym of [`Resolution::to_millis`].
    pub fn as_millis(&self) -> (r: u64)
        ensures
            r == 1000 * self.width(),
    {
        self.to_millis()
    }

    /// All six resolutions, in processing order.
    pub fn all() -> (r: [Resolution; 6])
        ensures
            r@ == resolutions(),
    {
        let r = [
            Resolution::S1,
            Resolution::M1,
            Resolution::M5,
            Resolution::M15,
            Resolution::H1,
            Resolution::D1,
        ];
        proof {
            assert(r@ =~= resolutions());
        }
        r
    }

    /// The start of the bucket that holds `timestamp`.
    pub open spec fn align_spec(self, timestamp: u64) -> int {
        align_down(timestamp as int, self.width() as int)
    }

    /// Align a timestamp (in seconds) down to the start of its bucket.
    pub fn align(&self, timestamp: u64) -> (r: u64)
        ensures
            r == self.align_spec(timestamp),
            r <= timestamp,
    {
        let w = self.to_seconds();
        proof {
            lemma_fundamental_div_mod(timestamp as int, w as int);
        }
        timestamp / w * w
    }

    /// Short wire name of the resolution (`S1`, `M1`, `M5`, `M15`, `H1`, `D1`).
    pub fn short_name(&self) -> (r: String)
        ensures
            r@ == self.name_spec(),
    {
        match self {
            Resolution::S1 => "S1".to_owned(),
            Resolution::M1 => "M1".to_owned(),
            Resolution::M5 => "M5".to_owned(),
            Resolution::M15 => "M15".to_owned(),
            Resolution::H1 => "H1".to_owned(),
            Resolution::D1 => "D1".to_owned(),
        }
    }
}

/// Aligning is idempotent: a bucket start is its own bucket start.
pub proof fn lemma_align_idempotent(resolution: Resolution, timestamp: u64)
    ensures
        align_down(resolution.align_spec(timestamp), resolution.width() as int)
            == resolution.align_spec(timestamp),
{
    let w = resolution.width() as int;
    let q = timestamp as int / w;
    assert(q * w == w * q) by (nonlinear_arith);
    lemma_div_multiples_vanish(q, w);
}

/// An OHLCV candle. Prices are fixed-point (see [`PRICE_SCALE`]); the volume
/// is a sum of raw base amounts.
#[derive(Clone, Copy, Debug, PartialEq, Eq, Structural)]
pub struct Candle {
    pub open: u128,
    pub close: u128,
    pub high: u128,
    pub low: u128,
    pub volume: u128,
}

impl Candle {
    /// A populated candle keeps its extremes around its open and close.
    pub open spec fn well_formed(self) -> bool {
        self.low <= self.open <= self.high && self.low <= self.close <= self.high
    }

    /// A flat candle: every price field carries `price`, and no volume.
    pub open spec fn flat_spec(price: u128) -> Candle {
        Candle { open: price, close: price, high: price, low: price, volume: 0 }
    }

    /// Build the flat candle that carries `price` through a bucket with no
    /// trades.
    pub fn flat(price: u128) -> (r: Candle)
        ensures
            r == Candle::flat_spec(price),
            r.well_formed(),
    {
        Candle { open: price, close: price, high: price, low: price, volume: 0 }
    }
}

impl Default for Candle {
    /// The all-zero candle, used when no trade has ever been seen.
    fn default() -> (r: Candle)
        ensures
            r == Candle::flat_spec(0),
    {
        Candle { open: 0, close: 0, high: 0, low: 0, volume: 0 }
    }
}

/// A candle together with the start of the bucket it summarizes: the unit
/// streamed to clients.
#[derive(Clone, Copy, Debug, PartialEq, Eq, Structural)]
pub struct TradeOhlcv {
    pub timestamp: u64,
    pub candle: Candle,
}

/// A raw trade: quote amount (`sol_amount`) and base amount (`token_amount`)
/// exchanged for the asset `mint_acc`.
#[derive(Clone, Debug)]
pub struct TradeInfo {
    pub mint_acc: String,
    pub sol_amount: u64,
    pub token_amount: u64,
}

/// Metadata attached to an asset identifier.
#[derive(Clone, Debug)]
pub struct TokenMetadata {
    pub name: String,
    pub symbol: String,
    pub uri: String,
}

impl TokenMetadata {
    /// The placeholder fields used for an asset whose metadata was never
    /// resolved.
    pub open spec fn is_unknown(self) -> bool {
        self.name@ == "unknown"@ && self.symbol@ == "NAN"@ && self.uri@ == "unknown"@
    }
}

impl TokenMetadata {
    /// The metadata with each field's trailing NUL padding removed.
    pub fn trimmed(&self) -> (r: TokenMetadata)
        ensures
            r.name@ == self.name@.subrange(0, trimmed_len(self.name@)),
            r.symbol@ == self.symbol@.subrange(0, trimmed_len(self.symbol@)),
            r.uri@ == self.uri@.subrange(0, trimmed_len(self.uri@)),
    {
        TokenMetadata {
            name: trim_trailing_nul(self.name.as_str()),
            symbol: trim_trailing_nul(self.symbol.as_str()),
            uri: trim_trailing_nul(self.uri.as_str()),
        }
    }

    /// An explicit copy whose fields are known to match the source value.
    pub fn duplicate(&self) -> (r: TokenMetadata)
        ensures
            r.name@ == self.name@,
            r.symbol@ == self.symbol@,
            r.uri@ == self.uri@,
    {
        TokenMetadata {
            name: self.name.clone(),
            symbol: self.symbol.clone(),
            uri: self.uri.clone(),
        }
    }
}

/// The length of `s` without its trailing NUL padding.
pub open spec fn trimmed_len(s: Seq<char>) -> int
    decreases s.len(),
{
    if s.len() == 0 {
        0
    } else if s.last() == '\0' {
        trimmed_len(s.drop_last())
    } else {
        s.len() as int
    }
}

/// Strip the trailing NUL padding that fixed-width on-chain fields carry.
pub fn trim_trailing_nul(s: &str) -> (r: String)
    ensures
        r@ == s@.subrange(0, trimmed_len(s@)),
{
    let n = s.unicode_len();
    let mut end = n;
    proof {
        assert(s@.take(n as int) =~= s@);
    }
    while end > 0 && s.get_char(end - 1) == '\0'
        invariant
            end <= n,
            n == s@.len(),
            trimmed_len(s@) == trimmed_len(s@.take(end as int)),
        decreases end,
    {
        proof {
            assert(s@.take(end as int).drop_last() =~= s@.take(end as int - 1));
        }
        end = end - 1;
    }
    proof {
        if end > 0 {
            assert(trimmed_len(s@.take(end as int)) == end as int);
        }
    }
    s.substring_char(0, end).to_owned()
}

impl PartialEq for TokenMetadata {
    fn eq(&self, other: &TokenMetadata) -> (r: bool) {
        self.name == other.name && self.symbol == other.symbol && self.uri == other.uri
    }
}

impl vstd::std_specs::cmp::PartialEqSpecImpl for TokenMetadata {
    open spec fn obeys_eq_spec() -> bool {
        true
    }

    open spec fn eq_spec(&self, other: &TokenMetadata) -> bool {
        self.name@ == other.name@ && self.symbol@ == other.symbol@ && self.uri@ == other.uri@
    }
}

/// Metadata read back from a stored row whose fields may be absent: each
/// missing field falls back to its placeholder.
pub fn metadata_from_row(
    name: Option<String>,
    symbol: Option<String>,
    uri: Option<String>,
) -> (r: TokenMetadata)
    ensures
        r.name@ == (match name {
            Option::Some(n) => n@,
            Option::None => "unknown"@,
        }),
        r.symbol@ == (match symbol {
            Option::Some(s) => s@,
            Option::None => "NAN"@,
        }),
        r.uri@ == (match uri {
            Option::Some(u) => u@,
            Option::None => "unknown"@,
        }),
{
    let name = match name {
        Option::Some(n) => n,
        Option::None => "unknown".to_owned(),
    };
    let symbol = match symbol {
        Option::Some(s) => s,
        Option::None => "NAN".to_owned(),
    };
    let uri = match uri {
        Option::Some(u) => u,
        Option::None => "unknown".to_owned(),
    };
    TokenMetadata { name, symbol, uri }
}

} // verus!
