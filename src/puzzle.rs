//! A search task: a target digest, a range of candidate scalars, the scan
//! strategies and the scanner that walks a window of the range.
use crate::bignat::{
    lemma_upper_hex_parses, parse_hex_spec, random_in_range, string_of_chars, upper_hex, BigNat,
};
use crate::curve::{curve_order, digest, digest_eq, key_matches, point_of, CurveContext};
use crate::speed_checker::SpeedChecker;
use vstd::prelude::*;

verus! {

/// What base58check decoding of the text yields: the payload without its
/// four checksum bytes, or `None` where a character or the checksum is wrong.
pub uninterp spec fn base58check_decoded(s: Seq<char>) -> Option<Seq<u8>>;

#[derive(Debug, Clone, Copy, PartialEq, Eq, Structural)]
pub enum PuzzleError {
    /// The address has a bad character or checksum, or its payload is not a
    /// version byte and 20 bytes.
    InvalidAddress,
    /// The range text is not two base-16 numbers around one `:`.
    MalformedRange,
    /// A window starts at a scalar that is not below the curve order.
    InvalidScalar,
    /// Stepping the point reached the point at infinity.
    CurveArithmeticError,
}

/// The outcome of a scan: the matching scalar in upper-case base 16, or none.
#[derive(Debug, PartialEq, Eq)]
pub enum SearchResult {
    Found(String),
    NotFound,
}

/// The part `[min, max)` of a range that one scan covers.
#[derive(Debug)]
pub struct ScanWindow {
    pub min: BigNat,
    pub max: BigNat,
}

/// The bounds of a range: `[low, high)`.
#[derive(Debug)]
pub struct RangeBounds {
    pub low: BigNat,
    pub high: BigNat,
}

/// How the windows of a range are chosen.
#[derive(Debug)]
pub enum Mode {
    /// Windows `[m - increment, m)` at random `m`, until one holds the key.
    Random { increment: BigNat },
    /// One window from a random start to the end of the range.
    LinearButStartAtRandom,
    /// The whole range, once.
    Linear,
}

/// One record of the target list.
#[derive(Debug)]
pub struct PuzzleJson {
    pub number: u8,
    pub address: String,
    pub range: String,
    pub private: Option<String>,
}

pub struct Puzzle {
    pub number: u8,
    pub ripemd160_address: [u8; 20],
    pub address: String,
    pub range: String,
    pub solution: Option<String>,
    pub speed_checker: SpeedChecker,
    /// The candidates that the last scan tested, in order.
    pub tested: Ghost<Seq<nat>>,
    /// The samples that the last random-window search drew, in order.
    pub draws: Ghost<Seq<nat>>,
}

/// The 20-byte digest that an address stands for: its payload less the
/// leading version byte.
pub open spec fn target_of(address: Seq<char>) -> Option<Seq<u8>> {
    match base58check_decoded(address) {
        Some(d) => if d.len() == 21 {
            Some(d.drop_first())
        } else {
            None
        },
        None => None,
    }
}

/// `i` is the position of the first `:` in `s`.
pub open spec fn first_colon(s: Seq<char>, i: int) -> bool {
    &&& 0 <= i < s.len()
    &&& s[i] == ':'
    &&& forall|j: int| 0 <= j < i ==> s[j] != ':'
}

/// The pair of numbers that range text denotes: base-16 text on both sides
/// of one `:`.
pub open spec fn parse_range_spec(s: Seq<char>) -> Option<(nat, nat)> {
    if exists|i: int| first_colon(s, i) {
        let i = choose|i: int| first_colon(s, i);
        match (parse_hex_spec(s.take(i)), parse_hex_spec(s.skip(i + 1))) {
            (Some(low), Some(high)) => Some((low, high)),
            _ => None,
        }
    } else {
        None
    }
}

/// Range text that parses to an empty range.
pub open spec fn range_is_empty(s: Seq<char>) -> bool {
    match parse_range_spec(s) {
        Some((low, high)) => high <= low,
        None => false,
    }
}

/// The range `[low, high)` written back in upper-case base 16.
pub open spec fn range_text(low: nat, high: nat) -> Seq<char> {
    upper_hex(low) + seq![':'] + upper_hex(high)
}

/// The integers `lo, lo + 1, ..., hi - 1`.
pub open spec fn candidates(lo: nat, hi: nat) -> Seq<nat> {
    if lo < hi {
        Seq::new((hi - lo) as nat, |i: int| (lo + i) as nat)
    } else {
        Seq::empty()
    }
}

/// No scalar in `[lo, hi)` is the key for `target`.
pub open spec fn no_match_in(lo: nat, hi: nat, target: Seq<u8>) -> bool {
    forall|c: nat| lo <= c < hi ==> !#[trigger] key_matches(c, target)
}

/// What a scan of `[min, max)` for `target` returns, with the candidates it
/// tested in order: the first key in the window; else nothing, where the
/// window stays below the curve order; else a curve error where it runs past
/// it. A window that starts at or past the curve order cannot be seeded.
pub open spec fn scan_outcome(
    min: nat,
    max: nat,
    target: Seq<u8>,
    r: Result<SearchResult, PuzzleError>,
    tested: Seq<nat>,
) -> bool {
    if min >= curve_order() {
        r == Err::<SearchResult, PuzzleError>(PuzzleError::InvalidScalar) && tested == Seq::<
            nat,
        >::empty()
    } else {
        match r {
            Ok(SearchResult::Found(s)) => exists|c: nat|
                {
                    &&& min <= c < max
                    &&& key_matches(c, target)
                    &&& no_match_in(min, c, target)
                    &&& s@ == upper_hex(c)
                    &&& tested == candidates(min, c + 1)
                },
            Ok(SearchResult::NotFound) => {
                &&& no_match_in(min, max, target)
                &&& max <= curve_order()
                &&& tested == candidates(min, max)
            },
            Err(e) => {
                &&& e == PuzzleError::CurveArithmeticError
                &&& no_match_in(min, curve_order(), target)
                &&& max > curve_order()
                &&& tested == candidates(min, curve_order())
            },
        }
    }
}

/// The candidates of a window `[lo, hi)` are each integer from `lo` up to
/// `hi - 1`, each once, and never `hi`.
pub proof fn lemma_candidates_exact(lo: nat, hi: nat)
    ensures
        forall|c: nat| candidates(lo, hi).contains(c) <==> lo <= c < hi,
        forall|i: int, j: int|
            0 <= i < j < candidates(lo, hi).len() ==> candidates(lo, hi)[i] != candidates(
                lo,
                hi,
            )[j],
        !candidates(lo, hi).contains(hi),
{
    let s = candidates(lo, hi);
    assert forall|c: nat| s.contains(c) <==> lo <= c < hi by {
        if lo <= c < hi {
            assert(s[c - lo] == c);
        }
    }
}

/// The window that a random sample `m` gives: `[m - increment, m)`, or none
/// where it would start below `low`.
pub open spec fn random_window_spec(low: nat, increment: nat, m: nat) -> Option<(nat, nat)> {
    if m >= increment && m - increment >= low {
        Some(((m - increment) as nat, m))
    } else {
        None
    }
}

/// A random draw `m` that led to no key: its window was dropped, or it was
/// scanned to its end without a match.
pub open spec fn round_exhausted(low: nat, increment: nat, m: nat, target: Seq<u8>) -> bool {
    match random_window_spec(low, increment, m) {
        Some((min, max)) => no_match_in(min, max, target) && max <= curve_order(),
        None => true,
    }
}

/// The first `n` draws lie in `[low, high)` and none of them led to a key.
pub open spec fn draws_exhausted(
    low: nat,
    high: nat,
    increment: nat,
    target: Seq<u8>,
    draws: Seq<nat>,
    n: int,
) -> bool {
    forall|i: int|
        0 <= i < n ==> low <= #[trigger] draws[i] < high && round_exhausted(
            low,
            increment,
            draws[i],
            target,
        )
}

/// What a random-window search of `[low, high)` with at most `rounds` draws
/// returns, given the draws it made and the candidates of its last scan: on an
/// empty range, nothing and no draw; else `NotFound` only after every draw
/// was made and none led to a key, and any other result is the outcome of
/// scanning the window of the last draw, all earlier draws having led to no
/// key.
pub open spec fn random_search_outcome(
    low: nat,
    high: nat,
    increment: nat,
    target: Seq<u8>,
    rounds: nat,
    r: Result<SearchResult, PuzzleError>,
    draws: Seq<nat>,
    tested: Seq<nat>,
) -> bool {
    if high <= low {
        r == Ok::<SearchResult, PuzzleError>(SearchResult::NotFound) && draws.len() == 0
    } else {
        &&& draws.len() <= rounds
        &&& match r {
            Ok(SearchResult::NotFound) => draws.len() == rounds && draws_exhausted(
                low,
                high,
                increment,
                target,
                draws,
                draws.len() as int,
            ),
            _ => {
                &&& draws.len() >= 1
                &&& draws_exhausted(low, high, increment, target, draws, draws.len() - 1)
                &&& low <= draws.last() < high
                &&& match random_window_spec(low, increment, draws.last()) {
                    Some((min, max)) => scan_outcome(min, max, target, r, tested),
                    None => false,
                }
            },
        }
    }
}

/// What a scan from a random start of `[low, high)` to `high` returns; an
/// empty range is scanned from `low`.
pub open spec fn random_start_outcome(
    low: nat,
    high: nat,
    target: Seq<u8>,
    r: Result<SearchResult, PuzzleError>,
    tested: Seq<nat>,
) -> bool {
    exists|start: nat|
        {
            &&& (low < high ==> low <= start < high)
            &&& (high <= low ==> start == low)
            &&& scan_outcome(start, high, target, r, tested)
        }
}

/// `a` and `b` describe the same task: they differ at most in their monitor
/// and their records of the last search.
pub open spec fn same_task(a: Puzzle, b: Puzzle) -> bool {
    &&& a.number == b.number
    &&& a.ripemd160_address == b.ripemd160_address
    &&& a.address == b.address
    &&& a.range == b.range
    &&& a.solution == b.solution
}

/// Relies on `bitcoin::base58::decode_check`.
#[verifier::external_body]
fn decode_check(s: &str) -> (r: Option<Vec<u8>>)
    ensures
        r is Some <==> base58check_decoded(s@) is Some,
        r is Some ==> r->0@ == base58check_decoded(s@)->0,
{
    bitcoin::base58::decode_check(s).ok()
}

/// Relies on `str::split_once` with `:`: the text before and after the first
/// `:`, or `None` where there is none.
#[verifier::external_body]
fn split_at_colon(s: &str) -> (r: Option<(&str, &str)>)
    ensures
        match r {
            Some((before, after)) => exists|i: int|
                first_colon(s@, i) && before@ == s@.take(i) && after@ == s@.skip(i + 1),
            None => !exists|i: int| first_colon(s@, i),
        },
{
    s.split_once(':')
}

/// The target digest of an address: its base58check payload, which must be a
/// version byte and 20 bytes, less the version byte.
pub fn decode_target(address: &str) -> (r: Result<[u8; 20], PuzzleError>)
    ensures
        match target_of(address@) {
            Some(t) => r is Ok && r->Ok_0@ == t,
            None => r == Err::<[u8; 20], PuzzleError>(PuzzleError::InvalidAddress),
        },
{
    let decoded = match decode_check(address) {
        Some(d) => d,
        None => return Err(PuzzleError::InvalidAddress),
    };
    if decoded.len() != 21 {
        return Err(PuzzleError::InvalidAddress);
    }
    let mut out: [u8; 20] = [0u8; 20];
    let mut i: usize = 0;
    while i < 20
        invariant
            i <= 20,
            decoded@.len() == 21,
            forall|j: int| 0 <= j < i ==> out@[j] == decoded@[j + 1],
        decreases 20 - i,
    {
        out[i] = decoded[i + 1];
        i = i + 1;
    }
    assert(out@ =~= decoded@.drop_first());
    Ok(out)
}

/// Parses range text `"<low>:<high>"`, both numbers in base 16.
pub fn parse_range(s: &str) -> (r: Result<RangeBounds, PuzzleError>)
    ensures
        match parse_range_spec(s@) {
            Some((low, high)) => r is Ok && r->Ok_0.low@ == low && r->Ok_0.high@ == high,
            None => r == Err::<RangeBounds, PuzzleError>(PuzzleError::MalformedRange),
        },
{
    let (left, right) = match split_at_colon(s) {
        Some(parts) => parts,
        None => return Err(PuzzleError::MalformedRange),
    };
    proof {
        let i = choose|i: int| first_colon(s@, i) && left@ == s@.take(i) && right@ == s@.skip(i + 1);
        let k = choose|k: int| first_colon(s@, k);
        if i < k {
            assert(s@[i] == ':');
        } else if k < i {
            assert(s@[k] == ':');
        }
        assert(i == k);
    }
    let low = match BigNat::parse_hex(left) {
        Some(v) => v,
        None => return Err(PuzzleError::MalformedRange),
    };
    let high = match BigNat::parse_hex(right) {
        Some(v) => v,
        None => return Err(PuzzleError::MalformedRange),
    };
    Ok(RangeBounds { low, high })
}

/// Writes `[low, high)` back as range text in upper-case base 16.
pub fn format_range(low: &BigNat, high: &BigNat) -> (r: String)
    ensures
        r@ == range_text(low@, high@),
{
    let mut chars = low.upper_hex_chars();
    chars.push(':');
    let mut tail = high.upper_hex_chars();
    chars.append(&mut tail);
    string_of_chars(&chars)
}

/// Range text that parses writes back, in upper-case base 16, as text that
/// parses to the same two numbers.
pub proof fn lemma_range_round_trip(s: Seq<char>, low: nat, high: nat)
    requires
        parse_range_spec(s) == Some((low, high)),
        low <= high,
    ensures
        parse_range_spec(range_text(low, high)) == Some((low, high)),
{
    let t = range_text(low, high);
    let a = upper_hex(low);
    let b = upper_hex(high);
    lemma_upper_hex_parses(low);
    lemma_upper_hex_parses(high);
    let n = a.len() as int;
    assert(t[n] == ':');
    assert forall|j: int| 0 <= j < n implies t[j] != ':' by {
        assert(t[j] == a[j]);
    }
    assert(first_colon(t, n));
    let k = choose|k: int| first_colon(t, k);
    if k < n {
        assert(t[k] == a[k]);
    } else if n < k {
        assert(t[n] == ':');
    }
    assert(k == n);
    assert(t.take(n) =~= a);
    assert(t.skip(n + 1) =~= b);
}

/// The window for the random sample `m`: `[m - increment, m)`, or `None`
/// where it would start below `low` (the sample is then drawn again).
pub fn random_window(low: &BigNat, increment: &BigNat, m: &BigNat) -> (r: Option<ScanWindow>)
    ensures
        match random_window_spec(low@, increment@, m@) {
            Some((min, max)) => r is Some && r->0.min@ == min && r->0.max@ == max,
            None => r is None,
        },
        r is Some ==> r->0.min@ >= low@,
{
    match m.checked_sub(increment) {
        Some(min) => {
            if min.lt(low) {
                None
            } else {
                Some(ScanWindow { min, max: m.clone() })
            }
        },
        None => None,
    }
}

/// The window that starts at the sample `start` and runs to the end of the
/// range.
pub fn window_from(start: &BigNat, high: &BigNat) -> (r: ScanWindow)
    ensures
        r.min@ == start@,
        r.max@ == high@,
{
    ScanWindow { min: start.clone(), max: high.clone() }
}

/// A random window of `[low, high)` never starts below `low`.
pub proof fn lemma_random_window_within_range(low: nat, high: nat, increment: nat, m: nat)
    requires
        low <= m < high,
    ensures
        match random_window_spec(low, increment, m) {
            Some((min, max)) => low <= min && max < high,
            None => true,
        },
{
}

impl Puzzle {
    /// The candidates that the last scan tested, in order.
    pub open spec fn last_tested(&self) -> Seq<nat> {
        self.tested@
    }

    /// The samples that the last random-window search drew, in order.
    pub open spec fn last_draws(&self) -> Seq<nat> {
        self.draws@
    }

    pub open spec fn wf(&self) -> bool {
        self.speed_checker.wf()
    }

    pub fn new(number: u8, address: String, range: String, solution: Option<String>) -> (r:
        Result<Puzzle, PuzzleError>)
        ensures
            match target_of(address@) {
                Some(t) => r is Ok && r->Ok_0.ripemd160_address@ == t && r->Ok_0.number == number
                    && r->Ok_0.address@ == address@ && r->Ok_0.range@ == range@ && r->Ok_0.solution
                    == solution && r->Ok_0.wf() && r->Ok_0.speed_checker.count_spec() == 0
                    && r->Ok_0.last_tested() == Seq::<nat>::empty() && r->Ok_0.last_draws()
                    == Seq::<nat>::empty(),
                None => r is Err && r->Err_0 == PuzzleError::InvalidAddress,
            },
    {
        let ripemd160_address = match decode_target(address.as_str()) {
            Ok(t) => t,
            Err(e) => return Err(e),
        };
        Ok(
            Puzzle {
                number,
                ripemd160_address,
                address,
                range,
                solution,
                speed_checker: SpeedChecker::new(),
                tested: Ghost(Seq::empty()),
                draws: Ghost(Seq::empty()),
            },
        )
    }

    pub fn from_json(data: &PuzzleJson) -> (r: Result<Puzzle, PuzzleError>)
        ensures
            match target_of(data.address@) {
                Some(t) => r is Ok && r->Ok_0.ripemd160_address@ == t && r->Ok_0.number == data.number
                    && r->Ok_0.address@ == data.address@ && r->Ok_0.range@ == data.range@ && r->Ok_0.wf()
                    && r->Ok_0.speed_checker.count_spec() == 0 && r->Ok_0.last_tested() == Seq::<
                    nat,
                >::empty() && r->Ok_0.last_draws() == Seq::<nat>::empty() && (r->Ok_0.solution is Some
                    <==> data.private is Some) && (data.private is Some ==> r->Ok_0.solution->0@
                    == data.private->0@),
                None => r is Err && r->Err_0 == PuzzleError::InvalidAddress,
            },
    {
        let private = match &data.private {
            Some(s) => Some(s.clone()),
            None => None,
        };
        Puzzle::new(data.number, data.address.clone(), data.range.clone(), private)
    }

    /// The bounds of the puzzle's range.
    pub fn range(&self) -> (r: Result<RangeBounds, PuzzleError>)
        ensures
            match parse_range_spec(self.range@) {
                Some((low, high)) => r is Ok && r->Ok_0.low@ == low && r->Ok_0.high@ == high,
                None => r == Err::<RangeBounds, PuzzleError>(PuzzleError::MalformedRange),
            },
    {
        parse_range(self.range.as_str())
    }

    /// Scans `[min, max)`: seeds the point for `min` once, then tests each
    /// candidate in turn, stepping the point by one addition of the generator.
    /// The scalar 0 has no public key and never matches.
    pub fn compute(&mut self, ctx: &CurveContext, min: &BigNat, max: &BigNat) -> (r: Result<
        SearchResult,
        PuzzleError,
    >)
        requires
            old(self).wf(),
        ensures
            final(self).wf(),
            same_task(*final(self), *old(self)),
            final(self).draws == old(self).draws,
            scan_outcome(min@, max@, old(self).ripemd160_address@, r, final(self).last_tested()),
    {
        let target = self.ripemd160_address;
        let ghost t = target@;
        let mut point: Option<[u8; 33]> = if min.is_zero() {
            None
        } else {
            match ctx.derive(min) {
                Some(p) => Some(p),
                None => {
                    self.tested = Ghost(Seq::empty());
                    return Err(PuzzleError::InvalidScalar);
                },
            }
        };
        let mut counter = min.clone();
        let ghost mut tested: Seq<nat> = Seq::empty();
        while counter.lt(max)
            invariant
                self.wf(),
                same_task(*self, *old(self)),
                self.draws == old(self).draws,
                target@ == t,
                t == old(self).ripemd160_address@,
                min@ < curve_order(),
                min@ <= counter@,
                counter@ <= curve_order(),
                counter@ <= max@ || counter@ == min@,
                counter@ < max@ ==> counter@ < curve_order(),
                counter@ < max@ && counter@ == 0 ==> point is None,
                counter@ < max@ && counter@ > 0 ==> point is Some && point->0@ == point_of(
                    counter@,
                ),
                no_match_in(min@, counter@, t),
                tested == candidates(min@, counter@),
            decreases max@ - counter@,
        {
            let hit = match &point {
                Some(p) => digest_eq(&digest(p), &target),
                None => false,
            };
            assert(candidates(min@, counter@).push(counter@) =~= candidates(min@, counter@ + 1));
            proof {
                tested = tested.push(counter@);
            }
            if hit {
                self.tested = Ghost(tested);
                let found = counter.to_upper_hex();
                assert(key_matches(counter@, t));
                assert(min@ <= counter@ < max@ && no_match_in(min@, counter@, t) && found@
                    == upper_hex(counter@) && tested == candidates(min@, counter@ + 1));
                return Ok(SearchResult::Found(found));
            }
            assert(!key_matches(counter@, t));
            assert(no_match_in(min@, counter@ + 1, t)) by {
                assert forall|c: nat| min@ <= c < counter@ + 1 implies !#[trigger] key_matches(
                    c,
                    t,
                ) by {
                    if c < counter@ {
                        assert(!key_matches(c, t));
                    }
                }
            }
            self.speed_checker.update();
            let next = counter.succ();
            if next.lt(max) {
                point = match point {
                    None => match ctx.derive(&next) {
                        Some(q) => Some(q),
                        None => {
                            self.tested = Ghost(tested);
                            return Err(PuzzleError::CurveArithmeticError);
                        },
                    },
                    Some(p) => {
                        assert(p@ == point_of(counter@));
                        match ctx.increment(&p) {
                            Some(q) => Some(q),
                            None => {
                                self.tested = Ghost(tested);
                                return Err(PuzzleError::CurveArithmeticError);
                            },
                        }
                    },
                };
            }
            counter = next;
        }
        self.tested = Ghost(tested);
        Ok(SearchResult::NotFound)
    }

    /// Scans the whole range once, low to high.
    pub fn linear_mode(&mut self, ctx: &CurveContext) -> (r: Result<SearchResult, PuzzleError>)
        requires
            old(self).wf(),
        ensures
            final(self).wf(),
            same_task(*final(self), *old(self)),
            final(self).draws == old(self).draws,
            match parse_range_spec(old(self).range@) {
                Some((low, high)) => scan_outcome(
                    low,
                    high,
                    old(self).ripemd160_address@,
                    r,
                    final(self).last_tested(),
                ),
                None => r == Err::<SearchResult, PuzzleError>(PuzzleError::MalformedRange)
                    && final(self).last_tested() == Seq::<nat>::empty(),
            },
    {
        let bounds = match self.range() {
            Ok(bounds) => bounds,
            Err(e) => {
                self.tested = Ghost(Seq::empty());
                return Err(e);
            },
        };
        let low = bounds.low;
        let high = bounds.high;
        self.compute(ctx, &low, &high)
    }

    /// Scans from a random start in `[low, high)` to `high`, once. An empty
    /// range has no start to draw and is scanned as it stands.
    pub fn linear_but_start_at_random_mode(&mut self, ctx: &CurveContext) -> (r: Result<
        SearchResult,
        PuzzleError,
    >)
        requires
            old(self).wf(),
        ensures
            final(self).wf(),
            same_task(*final(self), *old(self)),
            final(self).draws == old(self).draws,
            match parse_range_spec(old(self).range@) {
                Some((low, high)) => random_start_outcome(
                    low,
                    high,
                    old(self).ripemd160_address@,
                    r,
                    final(self).last_tested(),
                ),
                None => r == Err::<SearchResult, PuzzleError>(PuzzleError::MalformedRange)
                    && final(self).last_tested() == Seq::<nat>::empty(),
            },
    {
        let bounds = match self.range() {
            Ok(bounds) => bounds,
            Err(e) => {
                self.tested = Ghost(Seq::empty());
                return Err(e);
            },
        };
        let low = bounds.low;
        let high = bounds.high;
        if !low.lt(&high) {
            return self.compute(ctx, &low, &high);
        }
        let start = random_in_range(&low, &high);
        let window = window_from(&start, &high);
        self.compute(ctx, &window.min, &window.max)
    }

    /// One draw of the random-window search, given the sample `m`: the window
    /// `[m - increment, m)` is scanned where it starts at or above `low`;
    /// otherwise nothing is scanned and the sample is to be drawn again.
    pub fn random_round(&mut self, ctx: &CurveContext, low: &BigNat, increment: &BigNat, m: &BigNat) -> (r:
        Result<SearchResult, PuzzleError>)
        requires
            old(self).wf(),
        ensures
            final(self).wf(),
            same_task(*final(self), *old(self)),
            final(self).draws == old(self).draws,
            match random_window_spec(low@, increment@, m@) {
                Some((min, max)) => scan_outcome(
                    min,
                    max,
                    old(self).ripemd160_address@,
                    r,
                    final(self).last_tested(),
                ),
                None => r == Ok::<SearchResult, PuzzleError>(SearchResult::NotFound)
                    && final(self).last_tested() == old(self).last_tested(),
            },
    {
        match random_window(low, increment, m) {
            Some(window) => self.compute(ctx, &window.min, &window.max),
            None => Ok(SearchResult::NotFound),
        }
    }

    /// Scans random windows `[m - increment, m)` of the range, at most
    /// `rounds` draws, until one holds the key. A draw whose window would
    /// start below the range is drawn again; an exhausted window leads to the
    /// next draw; a scan error ends the search. `NotFound` means that the
    /// draws ran out.
    pub fn random_mode(&mut self, ctx: &CurveContext, increment: &BigNat, rounds: u64) -> (r:
        Result<SearchResult, PuzzleError>)
        requires
            old(self).wf(),
        ensures
            final(self).wf(),
            same_task(*final(self), *old(self)),
            match parse_range_spec(old(self).range@) {
                Some((low, high)) => random_search_outcome(
                    low,
                    high,
                    increment@,
                    old(self).ripemd160_address@,
                    rounds as nat,
                    r,
                    final(self).last_draws(),
                    final(self).last_tested(),
                ),
                None => r == Err::<SearchResult, PuzzleError>(PuzzleError::MalformedRange)
                    && final(self).last_tested() == Seq::<nat>::empty() && final(self).last_draws()
                    == Seq::<nat>::empty(),
            },
    {
        let bounds = match self.range() {
            Ok(bounds) => bounds,
            Err(e) => {
                self.tested = Ghost(Seq::empty());
                self.draws = Ghost(Seq::empty());
                return Err(e);
            },
        };
        let low = bounds.low;
        let high = bounds.high;
        self.draws = Ghost(Seq::empty());
        if !low.lt(&high) {
            return Ok(SearchResult::NotFound);
        }
        let ghost t = self.ripemd160_address@;
        let ghost mut draws: Seq<nat> = Seq::empty();
        let mut round: u64 = 0;
        while round < rounds
            invariant
                self.wf(),
                same_task(*self, *old(self)),
                t == old(self).ripemd160_address@,
                parse_range_spec(old(self).range@) == Some((low@, high@)),
                low@ < high@,
                round <= rounds,
                draws.len() == round,
                draws_exhausted(low@, high@, increment@, t, draws, draws.len() as int),
            decreases rounds - round,
        {
            let m = random_in_range(&low, &high);
            proof {
                draws = draws.push(m@);
            }
            let outcome = self.random_round(ctx, &low, increment, &m);
            match outcome {
                Ok(SearchResult::NotFound) => {
                    assert(round_exhausted(low@, increment@, m@, t));
                    assert(draws_exhausted(low@, high@, increment@, t, draws, draws.len() as int))
                        by {
                        assert forall|i: int| 0 <= i < draws.len() implies low@ <= #[trigger] draws[i]
                            < high@ && round_exhausted(low@, increment@, draws[i], t) by {
                            if i < draws.len() - 1 {
                                assert(draws[i] == draws.drop_last()[i]);
                            }
                        }
                    }
                },
                _ => {
                    self.draws = Ghost(draws);
                    assert(draws_exhausted(low@, high@, increment@, t, draws, draws.len() - 1)) by {
                        assert forall|i: int| 0 <= i < draws.len() - 1 implies low@
                            <= #[trigger] draws[i] < high@ && round_exhausted(low@, increment@, draws[i], t) by {
                            assert(draws[i] == draws.drop_last()[i]);
                        }
                    }
                    return outcome;
                },
            }
            round = round + 1;
        }
        self.draws = Ghost(draws);
        Ok(SearchResult::NotFound)
    }

    /// Runs the strategy `mode` over the puzzle's range; a random-window
    /// search makes at most `u64::MAX` draws.
    pub fn start(&mut self, ctx: &CurveContext, mode: Mode) -> (r: Result<
        SearchResult,
        PuzzleError,
    >)
        requires
            old(self).wf(),
        ensures
            final(self).wf(),
            same_task(*final(self), *old(self)),
            parse_range_spec(old(self).range@) is None ==> r == Err::<
                SearchResult,
                PuzzleError,
            >(PuzzleError::MalformedRange) && final(self).last_tested() == Seq::<nat>::empty(),
            match parse_range_spec(old(self).range@) {
                Some((low, high)) => match mode {
                    Mode::Linear => scan_outcome(
                        low,
                        high,
                        old(self).ripemd160_address@,
                        r,
                        final(self).last_tested(),
                    ),
                    Mode::LinearButStartAtRandom => random_start_outcome(
                        low,
                        high,
                        old(self).ripemd160_address@,
                        r,
                        final(self).last_tested(),
                    ),
                    Mode::Random { increment } => random_search_outcome(
                        low,
                        high,
                        increment@,
                        old(self).ripemd160_address@,
                        u64::MAX as nat,
                        r,
                        final(self).last_draws(),
                        final(self).last_tested(),
                    ),
                },
                None => true,
            },
    {
        match mode {
            Mode::Random { increment } => self.random_mode(ctx, &increment, u64::MAX),
            Mode::Linear => self.linear_mode(ctx),
            Mode::LinearButStartAtRandom => self.linear_but_start_at_random_mode(ctx),
        }
    }
}

} // verus!
