//! The secp256k1 point engine and the digest pipeline.
//!
//! A point is carried as its 33-byte compressed encoding; the curve
//! arithmetic and the hashing are those of the `bitcoin` crate (its
//! `secp256k1` and `hashes` parts), reached through the wrappers below.
use crate::bignat::{be_value, lemma_pow256_32, pow256, two_pow_128, BigNat};
use bitcoin::secp256k1::{All, PublicKey, Secp256k1, SecretKey};
use vstd::prelude::*;

verus! {

/// The order `n` of the secp256k1 group: valid secret keys are `1..n`.
pub open spec fn curve_order() -> nat {
    0xFFFF_FFFF_FFFF_FFFF_FFFF_FFFF_FFFF_FFFE * two_pow_128() + 0xBAAE_DCE6_AF48_A03B_BFD2_5E8C_D036_4141
}

/// The compressed encoding of the point `k * G`, for `0 < k < n`.
pub uninterp spec fn point_of(k: nat) -> Seq<u8>;

/// RIPEMD-160 of SHA-256 of the bytes.
pub uninterp spec fn hash160_of(b: Seq<u8>) -> Seq<u8>;

/// The scalar `k` is a secret key whose public key hashes to `target`.
pub open spec fn key_matches(k: nat, target: Seq<u8>) -> bool {
    0 < k < curve_order() && hash160_of(point_of(k)) == target
}

/// The curve parameters and precomputed tables, built once and shared
/// read-only by every scan. The `secp256k1` context type is generic over a
/// trait bound that Verus does not take in a type declaration, so the
/// context is held opaquely here and read only by the wrappers below.
#[verifier::external_body]
pub struct CurveContext {
    secp: Secp256k1<All>,
}

impl CurveContext {
    pub fn new() -> (r: CurveContext) {
        new_context()
    }

    /// The point `n * G`, by a full scalar multiplication; `None` unless
    /// `0 < n < curve_order()`.
    pub fn derive(&self, n: &BigNat) -> (r: Option<[u8; 33]>)
        ensures
            r is Some <==> 0 < n@ < curve_order(),
            r is Some ==> r->0@ == point_of(n@),
    {
        match n.to_be_bytes_32() {
            Some(bytes) => secret_to_point(self, bytes.as_slice()),
            None => {
                proof {
                    lemma_pow256_32();
                    let t = two_pow_128();
                    assert(curve_order() < t * t) by (nonlinear_arith)
                        requires
                            t == two_pow_128(),
                            t > 0xBAAE_DCE6_AF48_A03B_BFD2_5E8C_D036_4141,
                            curve_order() == 0xFFFF_FFFF_FFFF_FFFF_FFFF_FFFF_FFFF_FFFE * t
                                + 0xBAAE_DCE6_AF48_A03B_BFD2_5E8C_D036_4141,
                            0xFFFF_FFFF_FFFF_FFFF_FFFF_FFFF_FFFF_FFFE < t,
                    ;
                }
                None
            },
        }
    }

    /// The point for `k + 1` from the point for `k`, by adding the generator;
    /// `None` where `k + 1` reaches the curve order.
    pub fn increment(&self, p: &[u8; 33]) -> (r: Option<[u8; 33]>)
        ensures
            forall|k: nat|
                0 < k < curve_order() && p@ == #[trigger] point_of(k) ==> if k + 1
                    < curve_order() {
                    r is Some && r->0@ == point_of(k + 1)
                } else {
                    r is None
                },
    {
        add_generator(self, p)
    }

    /// The point for `k + steps` from the point for `k`, by `steps` single
    /// additions of the generator; `None` where the walk reaches the curve
    /// order. Stepping `k` times from `derive(n)` gives `derive(n + k)`.
    pub fn increment_times(&self, p: &[u8; 33], steps: u64) -> (r: Option<[u8; 33]>)
        ensures
            forall|k: nat|
                0 < k && k + steps < curve_order() && p@ == #[trigger] point_of(k) ==> r is Some
                    && r->0@ == point_of((k + steps) as nat),
    {
        let mut cur: [u8; 33] = *p;
        let mut i: u64 = 0;
        while i < steps
            invariant
                i <= steps,
                forall|k: nat|
                    0 < k && k + steps < curve_order() && p@ == #[trigger] point_of(k) ==> cur@
                        == point_of((k + i) as nat),
            decreases steps - i,
        {
            match self.increment(&cur) {
                Some(q) => {
                    proof {
                        assert forall|k: nat|
                            0 < k && k + steps < curve_order() && p@ == #[trigger] point_of(
                                k,
                            ) implies q@ == point_of((k + i + 1) as nat) by {
                            assert(cur@ == point_of((k + i) as nat));
                        }
                    }
                    cur = q;
                },
                None => {
                    proof {
                        assert forall|k: nat|
                            0 < k && k + steps < curve_order() && p@ == #[trigger] point_of(
                                k,
                            ) implies false by {
                            assert(cur@ == point_of((k + i) as nat));
                        }
                    }
                    return None;
                },
            }
            i = i + 1;
        }
        Some(cur)
    }
}

/// The 20-byte digest of a point.
pub fn digest(p: &[u8; 33]) -> (r: [u8; 20])
    ensures
        r@ == hash160_of(p@),
{
    hash160(p)
}

/// Byte-wise equality of two digests.
pub fn digest_eq(a: &[u8; 20], b: &[u8; 20]) -> (r: bool)
    ensures
        r == (a@ == b@),
{
    let mut i: usize = 0;
    while i < 20
        invariant
            i <= 20,
            forall|j: int| 0 <= j < i ==> a@[j] == b@[j],
        decreases 20 - i,
    {
        if a[i] != b[i] {
            return false;
        }
        i = i + 1;
    }
    assert(a@ =~= b@);
    true
}

/// Relies on `Secp256k1::new`: a context able to sign and verify.
#[verifier::external_body]
fn new_context() -> CurveContext {
    CurveContext { secp: Secp256k1::new() }
}

/// Relies on `SecretKey::from_slice`, which accepts exactly 32 bytes that
/// spell a number in `1..n`, then on `PublicKey::from_secret_key` and
/// `PublicKey::serialize` for the compressed encoding of that multiple of `G`.
#[verifier::external_body]
fn secret_to_point(ctx: &CurveContext, secret: &[u8]) -> (r: Option<[u8; 33]>)
    ensures
        r is Some <==> (secret@.len() == 32 && 0 < be_value(secret@) < curve_order()),
        r is Some ==> r->0@ == point_of(be_value(secret@)),
{
    match SecretKey::from_slice(secret) {
        Ok(key) => Some(PublicKey::from_secret_key(&ctx.secp, &key).serialize()),
        Err(_) => None,
    }
}

/// Relies on `PublicKey::add_exp_tweak` with the scalar one: it adds `G` to
/// the point and fails where the sum is the point at infinity. The point is
/// read back with `PublicKey::from_slice` and written with
/// `PublicKey::serialize`.
#[verifier::external_body]
fn add_generator(ctx: &CurveContext, p: &[u8; 33]) -> (r: Option<[u8; 33]>)
    ensures
        forall|k: nat|
            0 < k < curve_order() && p@ == #[trigger] point_of(k) ==> if k + 1 < curve_order() {
                r is Some && r->0@ == point_of(k + 1)
            } else {
                r is None
            },
{
    let key = PublicKey::from_slice(p).ok()?;
    key.add_exp_tweak(&ctx.secp, &bitcoin::secp256k1::Scalar::ONE).ok().map(|q| q.serialize())
}

/// Relies on `hash160::Hash::hash`: RIPEMD-160 of SHA-256 of the bytes.
#[verifier::external_body]
fn hash160(b: &[u8; 33]) -> (r: [u8; 20])
    ensures
        r@ == hash160_of(b@),
{
    let h = <bitcoin::hashes::hash160::Hash as bitcoin::hashes::Hash>::hash(b);
    <bitcoin::hashes::hash160::Hash as bitcoin::hashes::Hash>::to_byte_array(h)
}

} // verus!
