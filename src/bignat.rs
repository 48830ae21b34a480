//! Arbitrary-precision non-negative integers.
//!
//! `BigNat` keeps its value as big-endian bytes, so the verified code can read
//! it; the arithmetic, the base-16 parsing and formatting and the random
//! sampling are those of `num_bigint::BigUint`, reached through the wrappers
//! at the bottom of this file.
use num_bigint::BigUint;
use num_bigint::RandBigInt;
use num_traits::CheckedSub;
use num_traits::Num;
use vstd::prelude::*;

verus! {

/// `256^n`.
pub open spec fn pow256(n: nat) -> nat
    decreases n,
{
    if n == 0 {
        1
    } else {
        256 * pow256((n - 1) as nat)
    }
}

/// The number that the bytes `s` spell in big-endian order.
pub open spec fn be_value(s: Seq<u8>) -> nat
    decreases s.len(),
{
    if s.len() == 0 {
        0
    } else {
        s[0] as nat * pow256((s.len() - 1) as nat) + be_value(s.drop_first())
    }
}

/// The value of a hexadecimal digit in either case, or -1 for any other character.
pub open spec fn hex_digit_value(c: char) -> int {
    if c == '0' { 0 }
    else if c == '1' { 1 }
    else if c == '2' { 2 }
    else if c == '3' { 3 }
    else if c == '4' { 4 }
    else if c == '5' { 5 }
    else if c == '6' { 6 }
    else if c == '7' { 7 }
    else if c == '8' { 8 }
    else if c == '9' { 9 }
    else if c == 'a' || c == 'A' { 10 }
    else if c == 'b' || c == 'B' { 11 }
    else if c == 'c' || c == 'C' { 12 }
    else if c == 'd' || c == 'D' { 13 }
    else if c == 'e' || c == 'E' { 14 }
    else if c == 'f' || c == 'F' { 15 }
    else { -1 }
}

/// The text that carries the digits: one leading `+` sign is dropped.
pub open spec fn hex_body(s: Seq<char>) -> Seq<char> {
    if s.len() > 0 && s[0] == '+' && !(s.len() > 1 && s[1] == '+') {
        s.drop_first()
    } else {
        s
    }
}

/// Accepted base-16 text: an optional `+`, then a digit, then digits and
/// `_` separators.
pub open spec fn hex_accepts(s: Seq<char>) -> bool {
    let t = hex_body(s);
    &&& t.len() > 0
    &&& t[0] != '_'
    &&& forall|i: int| 0 <= i < t.len() ==> hex_digit_value(#[trigger] t[i]) >= 0 || t[i] == '_'
}

/// The number that base-16 digits spell, `_` separators skipped.
pub open spec fn hex_value(t: Seq<char>) -> nat
    decreases t.len(),
{
    if t.len() == 0 {
        0
    } else if t.last() == '_' {
        hex_value(t.drop_last())
    } else {
        hex_value(t.drop_last()) * 16 + hex_digit_value(t.last()) as nat
    }
}

/// What base-16 text denotes, if it is accepted.
pub open spec fn parse_hex_spec(s: Seq<char>) -> Option<nat> {
    if hex_accepts(s) {
        Some(hex_value(hex_body(s)))
    } else {
        None
    }
}

/// The base-16 digit values of `n`, most significant first, without leading
/// zeros (zero is the single digit 0).
pub open spec fn hex_digits(n: nat) -> Seq<u8>
    decreases n,
{
    if n < 16 {
        seq![n as u8]
    } else {
        hex_digits(n / 16).push((n % 16) as u8)
    }
}

pub open spec fn upper_digit_table() -> Seq<char> {
    seq!['0', '1', '2', '3', '4', '5', '6', '7', '8', '9', 'A', 'B', 'C', 'D', 'E', 'F']
}

/// The upper-case character of a digit value below 16.
pub open spec fn upper_digit(d: u8) -> char {
    upper_digit_table()[d as int]
}

/// `n` written in upper-case base 16, without leading zeros.
pub open spec fn upper_hex(n: nat) -> Seq<char>
    decreases n,
{
    if n < 16 {
        seq![upper_digit(n as u8)]
    } else {
        upper_hex(n / 16).push(upper_digit((n % 16) as u8))
    }
}

/// An arbitrary-precision non-negative integer.
#[derive(Debug)]
pub struct BigNat {
    bytes: Vec<u8>,
}

impl Clone for BigNat {
    fn clone(&self) -> (r: BigNat)
        ensures
            r@ == self@,
    {
        BigNat { bytes: self.bytes.clone() }
    }
}

impl View for BigNat {
    type V = nat;

    closed spec fn view(&self) -> nat {
        be_value(self.bytes@)
    }
}

pub proof fn lemma_pow256_positive(n: nat)
    ensures
        pow256(n) >= 1,
    decreases n,
{
    if n > 0 {
        lemma_pow256_positive((n - 1) as nat);
    }
}

/// Bytes of length `n` spell a number below `256^n`.
pub proof fn lemma_be_value_bound(s: Seq<u8>)
    ensures
        be_value(s) < pow256(s.len()),
    decreases s.len(),
{
    if s.len() > 0 {
        lemma_be_value_bound(s.drop_first());
        let p = pow256((s.len() - 1) as nat);
        assert(s[0] as nat * p + p <= 256 * p) by (nonlinear_arith)
            requires
                s[0] < 256,
        ;
    }
}

/// A non-zero leading byte makes the number at least `256^(n-1)`.
proof fn lemma_be_value_leading(s: Seq<u8>)
    requires
        s.len() > 0,
        s[0] != 0,
    ensures
        be_value(s) >= pow256((s.len() - 1) as nat),
{
    let p = pow256((s.len() - 1) as nat);
    assert(s[0] as nat * p >= p) by (nonlinear_arith)
        requires
            s[0] >= 1,
    ;
}

/// Leading zero bytes do not change the number.
proof fn lemma_be_value_skip_zeros(s: Seq<u8>, i: int)
    requires
        0 <= i <= s.len(),
        forall|j: int| 0 <= j < i ==> s[j] == 0,
    ensures
        be_value(s) == be_value(s.subrange(i, s.len() as int)),
    decreases i,
{
    if i > 0 {
        let t = s.drop_first();
        assert forall|j: int| 0 <= j < i - 1 implies t[j] == 0 by {
            assert(t[j] == s[j + 1]);
        }
        lemma_be_value_skip_zeros(t, i - 1);
        assert(s[0] as nat * pow256((s.len() - 1) as nat) == 0);
        assert(be_value(s) == be_value(t));
        assert(t.subrange(i - 1, t.len() as int) =~= s.subrange(i, s.len() as int));
    } else {
        assert(s.subrange(0, s.len() as int) =~= s);
    }
}

/// `2^128`.
pub open spec fn two_pow_128() -> nat {
    0x7FFF_FFFF_FFFF_FFFF_FFFF_FFFF_FFFF_FFFF * 2 + 2
}

pub proof fn lemma_pow256_32()
    ensures
        pow256(32) == two_pow_128() * two_pow_128(),
        pow256(16) == two_pow_128(),
{
    reveal_with_fuel(pow256, 17);
    lemma_pow256_add(16, 16);
}

proof fn lemma_pow256_add(a: nat, b: nat)
    ensures
        pow256(a + b) == pow256(a) * pow256(b),
    decreases b,
{
    if b > 0 {
        lemma_pow256_add(a, (b - 1) as nat);
        assert(pow256(a + b) == 256 * pow256((a + b - 1) as nat));
        assert(pow256(b) == 256 * pow256((b - 1) as nat));
        assert((a + b - 1) as nat == a + (b - 1) as nat);
        assert(pow256(a) * (256 * pow256((b - 1) as nat)) == 256 * (pow256(a) * pow256(
            (b - 1) as nat,
        ))) by (nonlinear_arith);
    } else {
        assert(pow256(0) == 1);
        assert(a + b == a);
    }
}

proof fn lemma_hex_digits_len(n: nat)
    ensures
        hex_digits(n).len() >= 1,
        forall|i: int| 0 <= i < hex_digits(n).len() ==> #[trigger] hex_digits(n)[i] < 16,
    decreases n,
{
    if n >= 16 {
        lemma_hex_digits_len(n / 16);
    }
}

proof fn lemma_upper_hex_of_digits(n: nat)
    ensures
        upper_hex(n) =~= hex_digits(n).map_values(|d: u8| upper_digit(d)),
    decreases n,
{
    if n >= 16 {
        lemma_upper_hex_of_digits(n / 16);
    }
}

proof fn lemma_upper_digit_value(d: u8)
    requires
        d < 16,
    ensures
        hex_digit_value(upper_digit(d)) == d as int,
        upper_digit(d) != '_',
        upper_digit(d) != '+',
{
}

/// Upper-case base-16 text is accepted and denotes the number it was made from.
pub proof fn lemma_upper_hex_parses(n: nat)
    ensures
        parse_hex_spec(upper_hex(n)) == Some(n),
        upper_hex(n).len() >= 1,
        forall|i: int| 0 <= i < upper_hex(n).len() ==> #[trigger] upper_hex(n)[i] != ':',
        forall|i: int|
            0 <= i < upper_hex(n).len() ==> hex_digit_value(#[trigger] upper_hex(n)[i]) >= 0,
    decreases n,
{
    let s = upper_hex(n);
    if n < 16 {
        lemma_upper_digit_value(n as u8);
        assert(hex_body(s) =~= s);
        assert(s.drop_last() =~= Seq::<char>::empty());
        assert(s.last() == upper_digit(n as u8));
        assert(hex_value(s.drop_last()) == 0);
        assert(hex_value(s) == n);
    } else {
        lemma_upper_hex_parses(n / 16);
        let p = upper_hex(n / 16);
        lemma_upper_digit_value((n % 16) as u8);
        assert(s.drop_last() =~= p);
        assert(s[0] == p[0]);
        assert(hex_digit_value(p[0]) >= 0);
        assert(hex_body(p) =~= p);
        assert(hex_body(s) =~= s);
        assert(s.last() == upper_digit((n % 16) as u8));
        assert(hex_value(s) == hex_value(p) * 16 + (n % 16));
        assert(hex_value(s) == n);
        assert forall|i: int| 0 <= i < s.len() implies hex_digit_value(#[trigger] s[i]) >= 0 by {
            if i < p.len() {
                assert(s[i] == p[i]);
            }
        }
    }
}

impl BigNat {
    /// The number `v`.
    pub fn from_u64(v: u64) -> (r: BigNat)
        ensures
            r@ == v as nat,
    {
        from_u64_value(v)
    }

    /// Parses base-16 text as `BigUint::from_str_radix` does.
    pub fn parse_hex(s: &str) -> (r: Option<BigNat>)
        ensures
            r is Some <==> parse_hex_spec(s@) is Some,
            r is Some ==> r->0@ == parse_hex_spec(s@)->0,
    {
        parse_hex_value(s)
    }

    /// `self == 0`.
    pub fn is_zero(&self) -> (r: bool)
        ensures
            r == (self@ == 0),
    {
        let mut i: usize = 0;
        while i < self.bytes.len()
            invariant
                i <= self.bytes@.len(),
                forall|j: int| 0 <= j < i ==> self.bytes@[j] == 0,
            decreases self.bytes@.len() - i,
        {
            if self.bytes[i] != 0 {
                proof {
                    let s = self.bytes@;
                    lemma_be_value_skip_zeros(s, i as int);
                    let t = s.subrange(i as int, s.len() as int);
                    lemma_pow256_positive((t.len() - 1) as nat);
                    lemma_be_value_leading(t);
                }
                return false;
            }
            i = i + 1;
        }
        proof {
            lemma_be_value_skip_zeros(self.bytes@, i as int);
        }
        true
    }

    /// `self < other`.
    pub fn lt(&self, other: &BigNat) -> (r: bool)
        ensures
            r == (self@ < other@),
    {
        less_than(self, other)
    }

    /// `self + 1`.
    pub fn succ(&self) -> (r: BigNat)
        ensures
            r@ == self@ + 1,
    {
        plus_one(self)
    }

    /// `self - other`, or `None` where `other > self`.
    pub fn checked_sub(&self, other: &BigNat) -> (r: Option<BigNat>)
        ensures
            r is Some <==> other@ <= self@,
            r is Some ==> r->0@ == self@ - other@,
    {
        minus(self, other)
    }

    /// The number in exactly 32 big-endian bytes, left-padded with zeros,
    /// or `None` where it needs more.
    pub fn to_be_bytes_32(&self) -> (r: Option<Vec<u8>>)
        ensures
            r is Some <==> self@ < pow256(32),
            r is Some ==> r->0@.len() == 32 && be_value(r->0@) == self@,
    {
        let n = self.bytes.len();
        let mut i: usize = 0;
        while i < n && self.bytes[i] == 0
            invariant
                i <= n,
                n == self.bytes@.len(),
                forall|j: int| 0 <= j < i ==> self.bytes@[j] == 0,
            decreases n - i,
        {
            i = i + 1;
        }
        let ghost s = self.bytes@;
        let ghost t = s.subrange(i as int, n as int);
        proof {
            lemma_be_value_skip_zeros(s, i as int);
        }
        if n - i > 32 {
            proof {
                lemma_be_value_leading(t);
                assert(pow256((t.len() - 1) as nat) >= pow256(32)) by {
                    lemma_pow256_mono(32, (t.len() - 1) as nat);
                }
            }
            return None;
        }
        let pad: usize = 32 - (n - i);
        let mut out: Vec<u8> = Vec::new();
        while out.len() < pad
            invariant
                out.len() <= pad,
                forall|j: int| 0 <= j < out@.len() ==> out@[j] == 0,
            decreases pad - out.len(),
        {
            out.push(0);
        }
        let mut k: usize = i;
        while k < n
            invariant
                i <= k <= n,
                n == self.bytes@.len(),
                out@.len() == pad + (k - i),
                forall|j: int| 0 <= j < pad ==> out@[j] == 0,
                forall|j: int| pad <= j < out@.len() ==> out@[j] == self.bytes@[j - pad + i],
            decreases n - k,
        {
            out.push(self.bytes[k]);
            k = k + 1;
        }
        proof {
            lemma_be_value_skip_zeros(out@, pad as int);
            assert(out@.subrange(pad as int, 32) =~= t);
            lemma_be_value_bound(t);
            lemma_pow256_mono(t.len(), 32);
        }
        Some(out)
    }

    /// `self` in upper-case base 16, without leading zeros.
    pub fn to_upper_hex(&self) -> (r: String)
        ensures
            r@ == upper_hex(self@),
    {
        let chars = self.upper_hex_chars();
        string_of_chars(&chars)
    }

    /// The characters of `self` in upper-case base 16, without leading zeros.
    pub fn upper_hex_chars(&self) -> (r: Vec<char>)
        ensures
            r@ == upper_hex(self@),
    {
        let digits = radix16_digits(self);
        proof {
            lemma_hex_digits_len(self@);
            lemma_upper_hex_of_digits(self@);
        }
        let table: [char; 16] = [
            '0', '1', '2', '3', '4', '5', '6', '7', '8', '9', 'A', 'B', 'C', 'D', 'E', 'F',
        ];
        assert(table@ =~= upper_digit_table());
        let mut chars: Vec<char> = Vec::new();
        let mut i: usize = 0;
        while i < digits.len()
            invariant
                i <= digits@.len(),
                digits@ == hex_digits(self@),
                table@ == upper_digit_table(),
                forall|j: int| 0 <= j < digits@.len() ==> #[trigger] digits@[j] < 16,
                chars@ =~= digits@.subrange(0, i as int).map_values(|d: u8| upper_digit(d)),
            decreases digits@.len() - i,
        {
            let d = digits[i];
            chars.push(table[d as usize]);
            i = i + 1;
        }
        assert(digits@.subrange(0, i as int) =~= digits@);
        chars
    }
}

proof fn lemma_pow256_mono(a: nat, b: nat)
    requires
        a <= b,
    ensures
        pow256(a) <= pow256(b),
    decreases b,
{
    if a < b {
        lemma_pow256_mono(a, (b - 1) as nat);
        lemma_pow256_positive((b - 1) as nat);
    }
}

/// Relies on `BigUint::from(u64)` and `BigUint::to_bytes_be`: the big-endian
/// bytes of `v`.
#[verifier::external_body]
fn from_u64_value(v: u64) -> (r: BigNat)
    ensures
        r@ == v as nat,
{
    BigNat { bytes: BigUint::from(v).to_bytes_be() }
}

/// Relies on `BigUint::from_str_radix` with radix 16: it accepts an optional
/// `+`, then a digit, then digits of either case and `_` separators, which it
/// skips.
#[verifier::external_body]
fn parse_hex_value(s: &str) -> (r: Option<BigNat>)
    ensures
        r is Some <==> parse_hex_spec(s@) is Some,
        r is Some ==> r->0@ == parse_hex_spec(s@)->0,
{
    BigUint::from_str_radix(s, 16).ok().map(|v| BigNat { bytes: v.to_bytes_be() })
}

/// Relies on `BigUint`'s `<`.
#[verifier::external_body]
fn less_than(a: &BigNat, b: &BigNat) -> (r: bool)
    ensures
        r == (a@ < b@),
{
    BigUint::from_bytes_be(&a.bytes) < BigUint::from_bytes_be(&b.bytes)
}

/// Relies on `BigUint`'s `+` with the integer 1.
#[verifier::external_body]
fn plus_one(a: &BigNat) -> (r: BigNat)
    ensures
        r@ == a@ + 1,
{
    BigNat { bytes: (BigUint::from_bytes_be(&a.bytes) + 1u32).to_bytes_be() }
}

/// Relies on `CheckedSub::checked_sub` of `BigUint`: `None` exactly where the
/// difference would be negative.
#[verifier::external_body]
fn minus(a: &BigNat, b: &BigNat) -> (r: Option<BigNat>)
    ensures
        r is Some <==> b@ <= a@,
        r is Some ==> r->0@ == a@ - b@,
{
    BigUint::from_bytes_be(&a.bytes).checked_sub(&BigUint::from_bytes_be(&b.bytes)).map(
        |v| BigNat { bytes: v.to_bytes_be() },
    )
}

/// Relies on `BigUint::to_radix_be` with radix 16: the digit values, most
/// significant first, with no leading zero (zero gives the single digit 0).
#[verifier::external_body]
fn radix16_digits(a: &BigNat) -> (r: Vec<u8>)
    ensures
        r@ == hex_digits(a@),
{
    BigUint::from_bytes_be(&a.bytes).to_radix_be(16)
}

/// Relies on `RandBigInt::gen_biguint_range` over the thread-local generator:
/// a number in `[low, high)`; it panics unless `low < high`.
#[verifier::external_body]
pub(crate) fn random_in_range(low: &BigNat, high: &BigNat) -> (r: BigNat)
    requires
        low@ < high@,
    ensures
        low@ <= r@ < high@,
{
    let low = BigUint::from_bytes_be(&low.bytes);
    let high = BigUint::from_bytes_be(&high.bytes);
    BigNat { bytes: rand::thread_rng().gen_biguint_range(&low, &high).to_bytes_be() }
}

/// Relies on collecting `char`s into a `String`: the same characters in order.
#[verifier::external_body]
pub(crate) fn string_of_chars(chars: &Vec<char>) -> (r: String)
    ensures
        r@ == chars@,
{
    chars.iter().collect()
}

} // verus!
