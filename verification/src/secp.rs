//! Cryptographic types and the trusted boundary to the elliptic-curve and
//! Pedersen-commitment primitives.
//!
//! The types hold the canonical byte form of each object: a scalar as 32 raw
//! bytes, a point and a commitment as their 33-byte compressed serialization,
//! a range proof as its logical bytes.  All curve arithmetic is delegated to
//! the `secp256k1zkp` library through the trusted wrappers below; what each
//! call returns is named by an uninterpreted spec function where no short
//! statement of it exists.

use vstd::prelude::*;

use crate::error::ErrorKind;
use crate::ser;
use rand::RngCore;
use rand::SeedableRng;
use secp256k1zkp::ContextFlag;
use secp256k1zkp::Secp256k1;

verus! {

/// Size of a raw scalar (secret key, blinding factor, excess) in bytes.
pub const SECRET_KEY_SIZE: usize = 32;

/// Size of a compressed curve point in bytes.
pub const COMPRESSED_PUBLIC_KEY_SIZE: usize = 33;

/// Size of a serialized Pedersen commitment in bytes.
pub const PEDERSEN_COMMITMENT_SIZE: usize = 33;

/// Size of a raw aggregate signature in bytes.
pub const AGG_SIGNATURE_SIZE: usize = 64;

/// Largest accepted range proof, in bytes.  A declared length beyond this is
/// clamped before any allocation, as a defense against malicious length
/// fields.
pub const MAX_PROOF_SIZE: usize = 5134;

/// A 32-byte scalar modulo the curve order: blinding factor, excess, or
/// session secret.  Validity (non-zero, below the group order) is decided by
/// the curve library on use.
#[derive(Debug)]
pub struct SecretKey {
    pub bytes: Vec<u8>,
}

impl View for SecretKey {
    type V = Seq<u8>;

    open spec fn view(&self) -> Seq<u8> {
        self.bytes@
    }
}

impl SecretKey {
    /// The scalar is carried as exactly 32 raw bytes.
    pub open spec fn wf(&self) -> bool {
        self.bytes@.len() == SECRET_KEY_SIZE
    }
}

/// A curve point in its 33-byte compressed serialization.
#[derive(Debug)]
pub struct PublicKey {
    pub bytes: Vec<u8>,
}

impl View for PublicKey {
    type V = Seq<u8>;

    open spec fn view(&self) -> Seq<u8> {
        self.bytes@
    }
}

impl PublicKey {
    /// The point is carried in compressed form: 1 parity byte plus the
    /// 32-byte x-coordinate.
    pub open spec fn wf(&self) -> bool {
        self.bytes@.len() == COMPRESSED_PUBLIC_KEY_SIZE
    }
}

/// An opaque 33-byte Pedersen commitment.  It is never decomposed here;
/// only the primitives open or combine it.
#[derive(Debug)]
pub struct Commitment {
    pub bytes: Vec<u8>,
}

impl View for Commitment {
    type V = Seq<u8>;

    open spec fn view(&self) -> Seq<u8> {
        self.bytes@
    }
}

impl Commitment {
    /// The commitment is carried as exactly 33 raw bytes.
    pub open spec fn wf(&self) -> bool {
        self.bytes@.len() == PEDERSEN_COMMITMENT_SIZE
    }
}

/// A raw fixed-size aggregate signature.
#[derive(Debug)]
pub struct Signature {
    pub bytes: Vec<u8>,
}

impl View for Signature {
    type V = Seq<u8>;

    open spec fn view(&self) -> Seq<u8> {
        self.bytes@
    }
}

impl Signature {
    /// The signature is carried as exactly 64 raw bytes.
    pub open spec fn wf(&self) -> bool {
        self.bytes@.len() == AGG_SIGNATURE_SIZE
    }
}

/// An opaque commitment-signature blob: proof of ownership of a committed
/// output, carried with a swap request and checked at the transport
/// boundary before a packet is peeled.
#[derive(Debug)]
pub struct ComSignature {
    pub bytes: Vec<u8>,
}

impl View for ComSignature {
    type V = Seq<u8>;

    open spec fn view(&self) -> Seq<u8> {
        self.bytes@
    }
}

/// A variable-length range proof: opaque bytes, bounded by
/// `MAX_PROOF_SIZE`.  The vector's length is the proof's logical length.
#[derive(Debug)]
pub struct RangeProof {
    pub bytes: Vec<u8>,
}

impl View for RangeProof {
    type V = Seq<u8>;

    open spec fn view(&self) -> Seq<u8> {
        self.bytes@
    }
}

impl RangeProof {
    /// A valid proof never exceeds the maximum size.
    pub open spec fn wf(&self) -> bool {
        self.bytes@.len() <= MAX_PROOF_SIZE
    }
}

/// Whether 32 bytes are a valid scalar: non-zero and below the curve order.
/// Names the success of `SecretKey::from_slice` of `secp256k1zkp`.
pub uninterp spec fn scalar_ok(s: Seq<u8>) -> bool;

/// Whether bytes parse as a valid curve point.  Names the success of
/// `PublicKey::from_slice` of `secp256k1zkp`.
pub uninterp spec fn pk_ok(s: Seq<u8>) -> bool;

/// The compressed point `s * G`.  Names the result of
/// `PublicKey::from_secret_key` of `secp256k1zkp`.
pub uninterp spec fn pubkey_of(s: Seq<u8>) -> Seq<u8>;

/// The 32-byte shared secret derived from a point and a scalar.  Names the
/// result of `ecdh::SharedSecret::new` of `secp256k1zkp`.
pub uninterp spec fn ecdh_of(pk: Seq<u8>, sk: Seq<u8>) -> Seq<u8>;

/// The product of two scalars modulo the curve order.  Names the result of
/// `SecretKey::mul_assign` of `secp256k1zkp`.
pub uninterp spec fn scalar_mul_of(a: Seq<u8>, b: Seq<u8>) -> Seq<u8>;

/// The sum of two scalars modulo the curve order.  Names the result of
/// `SecretKey::add_assign` of `secp256k1zkp`.
pub uninterp spec fn scalar_add_of(a: Seq<u8>, b: Seq<u8>) -> Seq<u8>;

/// The compressed point `sk * P`.  Names the result of
/// `PublicKey::mul_assign` of `secp256k1zkp`.
pub uninterp spec fn point_mul_of(pk: Seq<u8>, sk: Seq<u8>) -> Seq<u8>;

/// The serialized commitment `value * H + blind * G`.  Names the result of
/// `Secp256k1::commit` of `secp256k1zkp`.
pub uninterp spec fn commit_of(value: u64, blind: Seq<u8>) -> Seq<u8>;

/// The serialized sum of a commitment and a commitment to zero under an
/// excess.  Names the result of `Secp256k1::commit_sum` of `secp256k1zkp`.
pub uninterp spec fn excess_sum_of(c: Seq<u8>, excess: Seq<u8>) -> Seq<u8>;

/// Whether the primitive accepts this commitment-excess sum: the 33
/// commitment bytes parse as a commitment and the shifted point
/// serializes.  Names the success of `Secp256k1::commit_sum` of
/// `secp256k1zkp` on these inputs (given a valid excess).
pub uninterp spec fn excess_sum_ok(c: Seq<u8>, excess: Seq<u8>) -> bool;

/// The first `n` bytes of the ChaCha20 stream under a 32-byte seed.  Names
/// the output of `rand_chacha::ChaCha20Rng`, which is documented as a
/// portable, reproducible function of its seed.
pub uninterp spec fn keystream_of(seed: Seq<u8>, n: int) -> Seq<u8>;

/// What the commutativity of scalar multiplication gives the shared
/// secret: if the point is `a * G`, then the secret of (point, sk) is the
/// secret the other party computes from (`sk * G`, a).  This is the
/// property that lets a hop derive the builder's symmetric key without
/// learning the builder's session scalar.
pub open spec fn ecdh_swap_ok(pk: Seq<u8>, sk: Seq<u8>, r: Seq<u8>) -> bool {
    forall|a: Seq<u8>| pk == pubkey_of(a) ==> r == ecdh_of(pubkey_of(sk), a)
}

/// What the commutativity of scalar multiplication gives a point product:
/// if the point is `a * G` for a valid scalar `a`, then `sk * point` is
/// `(a * sk) * G`.  This is the chain-rotation step of the onion.
pub open spec fn point_mul_swap_ok(pk: Seq<u8>, sk: Seq<u8>, r: Seq<u8>) -> bool {
    forall|a: Seq<u8>| pk == pubkey_of(a) && scalar_ok(a) ==> r == pubkey_of(scalar_mul_of(a, sk))
}

/// What the homomorphism of Pedersen commitments gives a sum: adding a
/// commitment to zero under `e` to a commitment to `v` under `b` shifts
/// the blinding factor, `(v*H + b*G) + e*G == v*H + (b+e)*G`.
pub open spec fn excess_shift_ok(c: Seq<u8>, e: Seq<u8>, r: Seq<u8>) -> bool {
    forall|v: u64, b: Seq<u8>|
        c == commit_of(v, b) && scalar_ok(b) ==> r == commit_of(v, scalar_add_of(b, e))
}

/// Relies on `SecretKey::from_slice` of `secp256k1zkp`: it accepts exactly
/// the 32-byte encodings of a non-zero scalar below the curve order, and
/// returns the bytes unchanged.
#[verifier::external_body]
pub(crate) fn parse_secret(bytes: &Vec<u8>) -> (r: Result<SecretKey, ErrorKind>)
    ensures
        r matches Ok(k) ==> k@ == bytes@ && k.wf(),
        r is Ok <==> scalar_ok(bytes@),
        r matches Err(e) ==> e == ErrorKind::CryptoError,
{
    let secp = Secp256k1::with_caps(ContextFlag::None);
    match secp256k1zkp::key::SecretKey::from_slice(&secp, bytes.as_slice()) {
        Ok(k) => Ok(SecretKey { bytes: k.0.to_vec() }),
        Err(_) => Err(ErrorKind::CryptoError),
    }
}

/// Relies on `PublicKey::from_slice` of `secp256k1zkp`: it succeeds exactly
/// on the serializations of a valid curve point.
#[verifier::external_body]
pub(crate) fn check_pubkey(bytes: &Vec<u8>) -> (r: bool)
    ensures
        r == pk_ok(bytes@),
{
    let secp = Secp256k1::with_caps(ContextFlag::None);
    secp256k1zkp::key::PublicKey::from_slice(&secp, bytes.as_slice()).is_ok()
}

/// Compute the public key of a secret key.
///
/// Relies on `PublicKey::from_secret_key` of `secp256k1zkp`: for a valid
/// scalar it returns `s * G`, a valid point, serialized compressed here;
/// it is deterministic in the scalar alone.
#[verifier::external_body]
pub fn to_public_key(secret_key: &SecretKey) -> (r: Result<PublicKey, ErrorKind>)
    ensures
        r matches Ok(k) ==> k@ == pubkey_of(secret_key@) && k.wf() && pk_ok(k@),
        r is Ok <==> scalar_ok(secret_key@),
        r matches Err(e) ==> e == ErrorKind::CryptoError,
{
    let secp = Secp256k1::new();
    let sk = match secp256k1zkp::key::SecretKey::from_slice(&secp, secret_key.bytes.as_slice()) {
        Ok(k) => k,
        Err(_) => return Err(ErrorKind::CryptoError),
    };
    let pk = match secp256k1zkp::key::PublicKey::from_secret_key(&secp, &sk) {
        Ok(k) => k,
        Err(_) => return Err(ErrorKind::CryptoError),
    };
    Ok(PublicKey { bytes: pk.serialize_vec(&secp, true).to_vec() })
}

/// Generate a random secret key.  Not for production use.
///
/// Relies on `SecretKey::from_slice` of `secp256k1zkp` to validate freshly
/// drawn bytes; nothing is stated of which scalar comes back.
#[verifier::external_body]
pub fn insecure_rand_secret() -> (r: Result<SecretKey, ErrorKind>)
    ensures
        r matches Ok(k) ==> k.wf() && scalar_ok(k@),
        r matches Err(e) ==> e == ErrorKind::CryptoError,
{
    let secp = Secp256k1::new();
    let mut seed = [0u8; 32];
    rand::thread_rng().fill_bytes(&mut seed);
    match secp256k1zkp::key::SecretKey::from_slice(&secp, &seed) {
        Ok(k) => Ok(SecretKey { bytes: k.0.to_vec() }),
        Err(_) => Err(ErrorKind::CryptoError),
    }
}

/// The shared secret between a point and a scalar.
///
/// Relies on `ecdh::SharedSecret::new` of `secp256k1zkp`: it hashes the
/// point `sk * P`, so it depends on its two arguments alone, and by
/// commutativity of scalar multiplication the roles of the two key pairs
/// can be swapped: for P = a*G, the secret of (P, sk) is the secret of
/// (sk*G, a).  The second ensures states that swap.
#[verifier::external_body]
pub(crate) fn ecdh(pubkey: &PublicKey, secret: &SecretKey) -> (r: Result<Vec<u8>, ErrorKind>)
    ensures
        r matches Ok(s) ==> s@ == ecdh_of(pubkey@, secret@) && s@.len() == 32,
        r matches Ok(s) ==> ecdh_swap_ok(pubkey@, secret@, s@),
        r is Ok <==> (pk_ok(pubkey@) && scalar_ok(secret@)),
        r matches Err(e) ==> e == ErrorKind::CryptoError,
{
    let secp = Secp256k1::with_caps(ContextFlag::None);
    let pk = match secp256k1zkp::key::PublicKey::from_slice(&secp, pubkey.bytes.as_slice()) {
        Ok(k) => k,
        Err(_) => return Err(ErrorKind::CryptoError),
    };
    let sk = match secp256k1zkp::key::SecretKey::from_slice(&secp, secret.bytes.as_slice()) {
        Ok(k) => k,
        Err(_) => return Err(ErrorKind::CryptoError),
    };
    let shared = secp256k1zkp::ecdh::SharedSecret::new(&secp, &pk, &sk);
    Ok(shared[0..32].to_vec())
}

/// The product of two scalars modulo the curve order.
///
/// Relies on `SecretKey::mul_assign` of `secp256k1zkp`: for two valid
/// scalars the product is again non-zero and below the order, so the call
/// succeeds and the result is a valid scalar.
#[verifier::external_body]
pub(crate) fn scalar_mul(a: &SecretKey, b: &SecretKey) -> (r: Result<SecretKey, ErrorKind>)
    ensures
        r matches Ok(k) ==> k@ == scalar_mul_of(a@, b@) && k.wf() && scalar_ok(k@),
        (scalar_ok(a@) && scalar_ok(b@)) ==> r is Ok,
        r matches Err(e) ==> e == ErrorKind::CryptoError,
{
    let secp = Secp256k1::with_caps(ContextFlag::None);
    let mut x = match secp256k1zkp::key::SecretKey::from_slice(&secp, a.bytes.as_slice()) {
        Ok(k) => k,
        Err(_) => return Err(ErrorKind::CryptoError),
    };
    let y = match secp256k1zkp::key::SecretKey::from_slice(&secp, b.bytes.as_slice()) {
        Ok(k) => k,
        Err(_) => return Err(ErrorKind::CryptoError),
    };
    match x.mul_assign(&secp, &y) {
        Ok(()) => Ok(SecretKey { bytes: x.0.to_vec() }),
        Err(_) => Err(ErrorKind::CryptoError),
    }
}

/// The sum of two scalars modulo the curve order.
///
/// Relies on `SecretKey::add_assign` of `secp256k1zkp`.  Addition modulo
/// the order is commutative, so the result is stated under both argument
/// orders.  The call fails when an input is invalid or the sum is zero.
#[verifier::external_body]
pub fn scalar_add(a: &SecretKey, b: &SecretKey) -> (r: Result<SecretKey, ErrorKind>)
    ensures
        r matches Ok(k) ==> k@ == scalar_add_of(a@, b@) && k@ == scalar_add_of(b@, a@) && k.wf()
            && scalar_ok(k@),
        r is Ok <==> (scalar_ok(a@) && scalar_ok(b@) && scalar_ok(scalar_add_of(a@, b@))),
        r matches Err(e) ==> e == ErrorKind::CryptoError,
{
    let secp = Secp256k1::with_caps(ContextFlag::None);
    let mut x = match secp256k1zkp::key::SecretKey::from_slice(&secp, a.bytes.as_slice()) {
        Ok(k) => k,
        Err(_) => return Err(ErrorKind::CryptoError),
    };
    let y = match secp256k1zkp::key::SecretKey::from_slice(&secp, b.bytes.as_slice()) {
        Ok(k) => k,
        Err(_) => return Err(ErrorKind::CryptoError),
    };
    match x.add_assign(&secp, &y) {
        Ok(()) => Ok(SecretKey { bytes: x.0.to_vec() }),
        Err(_) => Err(ErrorKind::CryptoError),
    }
}

/// The point `sk * P`, serialized compressed.
///
/// Relies on `PublicKey::mul_assign` of `secp256k1zkp`: for a valid point
/// and a valid scalar the product is a valid point (the group has prime
/// order, so no non-zero multiple of a valid point is the identity).  By
/// commutativity of scalar multiplication, for P = a*G the result is
/// (a * sk) * G; the second ensures states that.
#[verifier::external_body]
pub(crate) fn point_mul(pubkey: &PublicKey, scalar: &SecretKey) -> (r: Result<
    PublicKey,
    ErrorKind,
>)
    ensures
        r matches Ok(k) ==> k@ == point_mul_of(pubkey@, scalar@) && k.wf() && pk_ok(k@),
        r matches Ok(k) ==> point_mul_swap_ok(pubkey@, scalar@, k@),
        (pk_ok(pubkey@) && scalar_ok(scalar@)) ==> r is Ok,
        r matches Err(e) ==> e == ErrorKind::CryptoError,
{
    let secp = Secp256k1::new();
    let mut pk = match secp256k1zkp::key::PublicKey::from_slice(&secp, pubkey.bytes.as_slice()) {
        Ok(k) => k,
        Err(_) => return Err(ErrorKind::CryptoError),
    };
    let sk = match secp256k1zkp::key::SecretKey::from_slice(&secp, scalar.bytes.as_slice()) {
        Ok(k) => k,
        Err(_) => return Err(ErrorKind::CryptoError),
    };
    match pk.mul_assign(&secp, &sk) {
        Ok(()) => Ok(PublicKey { bytes: pk.serialize_vec(&secp, true).to_vec() }),
        Err(_) => Err(ErrorKind::CryptoError),
    }
}

/// Build a Pedersen commitment to `value` under the blinding factor.
///
/// Relies on `Secp256k1::commit` of `secp256k1zkp`: deterministic in value
/// and blinding factor; it fails exactly when the blinding factor is not a
/// valid scalar.
#[verifier::external_body]
pub fn commit(value: u64, blind: &SecretKey) -> (r: Result<Commitment, ErrorKind>)
    ensures
        r matches Ok(c) ==> c@ == commit_of(value, blind@) && c.wf(),
        r is Ok <==> scalar_ok(blind@),
        r matches Err(e) ==> e == ErrorKind::CryptoError,
{
    let secp = Secp256k1::with_caps(ContextFlag::Commit);
    let b = match secp256k1zkp::key::SecretKey::from_slice(&secp, blind.bytes.as_slice()) {
        Ok(k) => k,
        Err(_) => return Err(ErrorKind::CryptoError),
    };
    match secp.commit(value, b) {
        Ok(c) => Ok(Commitment { bytes: c.0.to_vec() }),
        Err(_) => Err(ErrorKind::CryptoError),
    }
}

/// Homomorphically add a blinding excess to an existing commitment.
///
/// Relies on `Secp256k1::commit` and `Secp256k1::commit_sum` of
/// `secp256k1zkp`: the result is the point sum of the commitment and a
/// commitment to zero under the excess.  Since
/// `(v*H + b*G) + e*G == v*H + (b+e)*G`, a commitment to `v` under `b`
/// becomes a commitment to `v` under `b + e`; the second ensures states
/// that homomorphic shift.  The call succeeds exactly when the excess is
/// a valid scalar and the primitive accepts the sum on these bytes.
#[verifier::external_body]
pub fn add_excess(commitment: &Commitment, excess: &SecretKey) -> (r: Result<
    Commitment,
    ErrorKind,
>)
    ensures
        r matches Ok(c) ==> c@ == excess_sum_of(commitment@, excess@) && c.wf(),
        r matches Ok(c) ==> excess_shift_ok(commitment@, excess@, c@),
        r is Ok <==> (scalar_ok(excess@) && excess_sum_ok(commitment@, excess@)),
        r matches Err(e) ==> e == ErrorKind::CryptoError,
{
    let secp = Secp256k1::with_caps(ContextFlag::Commit);
    let e = secp256k1zkp::key::SecretKey::from_slice(&secp, excess.bytes.as_slice()).map_err(|_|
        ErrorKind::CryptoError,
    )?;
    let excess_commit = secp.commit(0, e).map_err(|_| ErrorKind::CryptoError)?;
    let c: [u8; 33] = commitment.bytes.as_slice().try_into().map_err(|_|
        ErrorKind::CryptoError,
    )?;
    match secp.commit_sum(vec![secp256k1zkp::pedersen::Commitment(c), excess_commit], Vec::new()) {
        Ok(s) => Ok(Commitment { bytes: s.0.to_vec() }),
        Err(_) => Err(ErrorKind::CryptoError),
    }
}

/// The excess bytes of a list of keys, in order.
pub open spec fn excess_views(es: Seq<SecretKey>) -> Seq<Seq<u8>> {
    es.map_values(|e: SecretKey| e@)
}

/// A blinding factor advanced by the first `k` excesses of a list, one
/// modular addition at a time.
pub open spec fn partial_blind_sum(b: Seq<u8>, es: Seq<Seq<u8>>, k: int) -> Seq<u8>
    decreases k,
{
    if k <= 0 {
        b
    } else {
        scalar_add_of(partial_blind_sum(b, es, k - 1), es[k - 1])
    }
}

/// A blinding factor advanced by every excess of a list.
pub open spec fn blind_sum(b: Seq<u8>, es: Seq<Seq<u8>>) -> Seq<u8> {
    partial_blind_sum(b, es, es.len() as int)
}

/// Whether every partial sum along the way is a valid scalar — the chance
/// event on which the whole chain is owed success.
pub open spec fn blind_sums_ok(b: Seq<u8>, es: Seq<Seq<u8>>) -> bool
    decreases es.len(),
{
    &&& scalar_ok(b)
    &&& (es.len() > 0 ==> blind_sums_ok(scalar_add_of(b, es[0]), es.skip(1)))
}

/// A commitment advanced by the first `k` excesses of a list, one
/// primitive sum at a time.
pub open spec fn partial_excess_sum(c: Seq<u8>, es: Seq<Seq<u8>>, k: int) -> Seq<u8>
    decreases k,
{
    if k <= 0 {
        c
    } else {
        excess_sum_of(partial_excess_sum(c, es, k - 1), es[k - 1])
    }
}

/// Whether the primitive accepts every step of the chain: each excess is
/// a valid scalar and each intermediate sum is accepted.
pub open spec fn excess_chain_accepted(c: Seq<u8>, es: Seq<Seq<u8>>) -> bool
    decreases es.len(),
{
    es.len() == 0 || (scalar_ok(es[0]) && excess_sum_ok(c, es[0]) && excess_chain_accepted(
        excess_sum_of(c, es[0]),
        es.skip(1),
    ))
}

/// Homomorphism over a whole route: adding each excess of a list in turn
/// shifts a commitment's blinding factor by the modular sum of the list.
/// A commitment to `v` under `b` becomes a commitment to `v` under
/// `b + e1 + ... + en`, whenever every scalar along the way is valid.
/// The fold succeeds exactly when the primitive accepts every step.
pub fn add_excesses(commitment: &Commitment, excesses: &Vec<SecretKey>) -> (r: Result<
    Commitment,
    ErrorKind,
>)
    ensures
        r is Ok <==> excess_chain_accepted(commitment@, excess_views(excesses@)),
        r matches Ok(c) ==> c@ == partial_excess_sum(
            commitment@,
            excess_views(excesses@),
            excesses@.len() as int,
        ),
        r matches Ok(c) ==> excess_shift_chain_ok(commitment@, excess_views(excesses@), c@),
        excesses@.len() == 0 ==> (r matches Ok(c) && c@ == commitment@),
        r matches Err(e) ==> e == ErrorKind::CryptoError,
{
    let ghost es = excess_views(excesses@);
    proof {
        assert(es.skip(0) =~= es);
    }
    let mut cur = Commitment { bytes: clone_bytes(&commitment.bytes) };
    let mut i: usize = 0;
    while i < excesses.len()
        invariant
            i <= excesses@.len(),
            es == excess_views(excesses@),
            cur@ == partial_excess_sum(commitment@, es, i as int),
            excess_chain_accepted(commitment@, es) <==> excess_chain_accepted(
                cur@,
                es.skip(i as int),
            ),
            forall|v: u64, b: Seq<u8>|
                commitment@ == #[trigger] commit_of(v, b) && blind_sums_ok(b, es) ==> cur@
                    == commit_of(v, partial_blind_sum(b, es, i as int)) && blind_sums_ok(
                    partial_blind_sum(b, es, i as int),
                    es.skip(i as int),
                ),
            excesses@.len() == 0 ==> cur@ == commitment@,
        decreases excesses@.len() - i,
    {
        let next = match add_excess(&cur, &excesses[i]) {
            Ok(c) => c,
            Err(_) => {
                proof {
                    assert(es[i as int] == excesses@[i as int]@);
                    assert(es.skip(i as int)[0] == es[i as int]);
                    assert(!excess_chain_accepted(cur@, es.skip(i as int)));
                }
                return Err(ErrorKind::CryptoError);
            },
        };
        proof {
            assert(es[i as int] == excesses@[i as int]@);
            assert(es.skip(i as int)[0] == es[i as int]);
            assert(es.skip(i as int).skip(1) =~= es.skip(i + 1));
            assert(partial_excess_sum(commitment@, es, i + 1) == excess_sum_of(
                partial_excess_sum(commitment@, es, i as int),
                es[i as int],
            ));
            assert(excess_chain_accepted(cur@, es.skip(i as int)) <==> excess_chain_accepted(
                next@,
                es.skip(i + 1),
            ));
            assert forall|v: u64, b: Seq<u8>|
                commitment@ == #[trigger] commit_of(v, b) && blind_sums_ok(b, es) implies next@
                == commit_of(v, partial_blind_sum(b, es, i + 1)) && blind_sums_ok(
                partial_blind_sum(b, es, i + 1),
                es.skip(i + 1),
            ) by {
                let p = partial_blind_sum(b, es, i as int);
                assert(blind_sums_ok(p, es.skip(i as int)));
                assert(es.skip(i as int)[0] == es[i as int]);
                assert(es.skip(i as int).skip(1) =~= es.skip(i + 1));
                assert(scalar_ok(p));
                assert(cur@ == commit_of(v, p));
                assert(next@ == commit_of(v, scalar_add_of(p, es[i as int])));
                assert(partial_blind_sum(b, es, i + 1) == scalar_add_of(p, es[i as int]));
            }
        }
        cur = next;
        i = i + 1;
    }
    proof {
        assert(es.skip(es.len() as int) =~= Seq::<Seq<u8>>::empty());
        assert(excess_chain_accepted(cur@, es.skip(es.len() as int)));
    }
    Ok(cur)
}

/// What the whole-route homomorphism states of a result: a commitment to
/// `v` under `b` became a commitment to `v` under the advanced factor,
/// for every opening the input commitment has.
pub open spec fn excess_shift_chain_ok(c: Seq<u8>, es: Seq<Seq<u8>>, r: Seq<u8>) -> bool {
    forall|v: u64, b: Seq<u8>|
        c == #[trigger] commit_of(v, b) && blind_sums_ok(b, es) ==> r == commit_of(
            v,
            blind_sum(b, es),
        )
}

/// The first `n` bytes of the ChaCha20 stream under a 32-byte seed.
///
/// Relies on `rand_chacha::ChaCha20Rng`: seeded output is documented as a
/// portable, reproducible function of the seed alone.
#[verifier::external_body]
pub(crate) fn keystream(seed: &Vec<u8>, n: usize) -> (r: Vec<u8>)
    requires
        seed@.len() == 32,
    ensures
        r@ == keystream_of(seed@, n as int),
        r@.len() == n,
{
    let mut s = [0u8; 32];
    s.copy_from_slice(seed.as_slice());
    let mut rng = rand_chacha::ChaCha20Rng::from_seed(s);
    let mut out = vec![0u8; n];
    rng.fill_bytes(&mut out);
    out
}

/// Copy a byte vector.  (The byte types carry no `Clone`; this keeps the
/// copy's contents visible to the verifier.)
pub fn clone_bytes(v: &Vec<u8>) -> (r: Vec<u8>)
    ensures
        r@ == v@,
{
    let r = v.clone();
    proof {
        assert(r@ =~= v@);
    }
    r
}

/// Read a secret key: 32 raw bytes, no length prefix.  Bytes that are not
/// a valid scalar are `CorruptedData`, as for public keys: no invalid
/// scalar survives decoding to fail later inside a primitive.
pub fn read_secret_key(data: &Vec<u8>, pos: &mut usize) -> (r: Result<SecretKey, ErrorKind>)
    ensures
        r matches Ok(k) ==> *old(pos) + SECRET_KEY_SIZE <= data@.len() && k@ == data@.subrange(
            *old(pos) as int,
            *old(pos) + SECRET_KEY_SIZE,
        ) && k.wf() && scalar_ok(k@) && *final(pos) == *old(pos) + SECRET_KEY_SIZE,
        r matches Err(e) ==> e == ErrorKind::CorruptedData && *final(pos) == *old(pos) && (*old(
            pos,
        ) + SECRET_KEY_SIZE > data@.len() || !scalar_ok(
            data@.subrange(*old(pos) as int, *old(pos) + SECRET_KEY_SIZE),
        )),
        *old(pos) + SECRET_KEY_SIZE <= data@.len() && scalar_ok(
            data@.subrange(*old(pos) as int, *old(pos) + SECRET_KEY_SIZE),
        ) ==> r is Ok,
{
    let start: usize = *pos;
    let bytes = ser::read_fixed_bytes(data, pos, SECRET_KEY_SIZE)?;
    match parse_secret(&bytes) {
        Ok(k) => Ok(k),
        Err(_) => {
            *pos = start;
            Err(ErrorKind::CorruptedData)
        },
    }
}

/// Write a secret key: 32 raw bytes, no length prefix.
pub fn write_secret_key(buf: &mut Vec<u8>, key: &SecretKey)
    requires
        key.wf(),
    ensures
        final(buf)@ == old(buf)@ + key@,
{
    ser::write_fixed_bytes(buf, &key.bytes);
}

/// Read a commitment: 33 raw bytes, opaque.
pub fn read_commitment(data: &Vec<u8>, pos: &mut usize) -> (r: Result<Commitment, ErrorKind>)
    ensures
        *old(pos) + PEDERSEN_COMMITMENT_SIZE <= data@.len() ==> (r matches Ok(c) && c@
            == data@.subrange(*old(pos) as int, *old(pos) + PEDERSEN_COMMITMENT_SIZE) && c.wf()
            && *final(pos) == *old(pos) + PEDERSEN_COMMITMENT_SIZE),
        *old(pos) + PEDERSEN_COMMITMENT_SIZE > data@.len() ==> (r matches Err(e) && e
            == ErrorKind::CorruptedData && *final(pos) == *old(pos)),
{
    let bytes = ser::read_fixed_bytes(data, pos, PEDERSEN_COMMITMENT_SIZE)?;
    Ok(Commitment { bytes })
}

/// Write a commitment: 33 raw bytes, opaque.
pub fn write_commitment(buf: &mut Vec<u8>, commitment: &Commitment)
    requires
        commitment.wf(),
    ensures
        final(buf)@ == old(buf)@ + commitment@,
{
    ser::write_fixed_bytes(buf, &commitment.bytes);
}

/// Read a signature: 64 raw bytes.
pub fn read_signature(data: &Vec<u8>, pos: &mut usize) -> (r: Result<Signature, ErrorKind>)
    ensures
        *old(pos) + AGG_SIGNATURE_SIZE <= data@.len() ==> (r matches Ok(s) && s@ == data@.subrange(
            *old(pos) as int,
            *old(pos) + AGG_SIGNATURE_SIZE,
        ) && s.wf() && *final(pos) == *old(pos) + AGG_SIGNATURE_SIZE),
        *old(pos) + AGG_SIGNATURE_SIZE > data@.len() ==> (r matches Err(e) && e
            == ErrorKind::CorruptedData && *final(pos) == *old(pos)),
{
    let bytes = ser::read_fixed_bytes(data, pos, AGG_SIGNATURE_SIZE)?;
    Ok(Signature { bytes })
}

/// Write a signature: 64 raw bytes.
pub fn write_signature(buf: &mut Vec<u8>, signature: &Signature)
    requires
        signature.wf(),
    ensures
        final(buf)@ == old(buf)@ + signature@,
{
    ser::write_fixed_bytes(buf, &signature.bytes);
}

/// Read a public key in compressed form; bytes that are not a valid point
/// are `CorruptedData`, never a silently substituted default.
pub fn read_public_key(data: &Vec<u8>, pos: &mut usize) -> (r: Result<PublicKey, ErrorKind>)
    ensures
        r matches Ok(k) ==> *old(pos) + COMPRESSED_PUBLIC_KEY_SIZE <= data@.len() && k@
            == data@.subrange(*old(pos) as int, *old(pos) + COMPRESSED_PUBLIC_KEY_SIZE) && k.wf()
            && pk_ok(k@) && *final(pos) == *old(pos) + COMPRESSED_PUBLIC_KEY_SIZE,
        r matches Err(e) ==> e == ErrorKind::CorruptedData && *final(pos) == *old(pos) && (*old(
            pos,
        ) + COMPRESSED_PUBLIC_KEY_SIZE > data@.len() || !pk_ok(
            data@.subrange(*old(pos) as int, *old(pos) + COMPRESSED_PUBLIC_KEY_SIZE),
        )),
        *old(pos) + COMPRESSED_PUBLIC_KEY_SIZE <= data@.len() && pk_ok(
            data@.subrange(*old(pos) as int, *old(pos) + COMPRESSED_PUBLIC_KEY_SIZE),
        ) ==> r is Ok,
{
    let start: usize = *pos;
    let bytes = ser::read_fixed_bytes(data, pos, COMPRESSED_PUBLIC_KEY_SIZE)?;
    if check_pubkey(&bytes) {
        Ok(PublicKey { bytes })
    } else {
        *pos = start;
        Err(ErrorKind::CorruptedData)
    }
}

/// Write a public key in compressed form.
pub fn write_public_key(buf: &mut Vec<u8>, key: &PublicKey)
    requires
        key.wf(),
    ensures
        final(buf)@ == old(buf)@ + key@,
{
    ser::write_fixed_bytes(buf, &key.bytes);
}

/// The length a declared proof length is clamped to before any allocation.
pub open spec fn clamped(l: u64) -> int {
    if l <= MAX_PROOF_SIZE as u64 {
        l as int
    } else {
        MAX_PROOF_SIZE as int
    }
}

/// Read a range proof: an 8-byte big-endian length prefix, clamped to
/// `MAX_PROOF_SIZE`, then that many raw bytes.  Bytes beyond the clamp are
/// never read.
pub fn read_range_proof(data: &Vec<u8>, pos: &mut usize) -> (r: Result<RangeProof, ErrorKind>)
    ensures
        r matches Ok(p) ==> *old(pos) + 8 <= data@.len() && p@ == data@.subrange(
            *old(pos) + 8,
            *old(pos) + 8 + clamped(be_u64_at(data@, *old(pos) as int)),
        ) && p.wf() && *final(pos) == *old(pos) + 8 + clamped(be_u64_at(data@, *old(pos) as int)),
        r matches Err(e) ==> e == ErrorKind::CorruptedData && *final(pos) == *old(pos) && (*old(
            pos,
        ) + 8 > data@.len() || *old(pos) + 8 + clamped(be_u64_at(data@, *old(pos) as int))
            > data@.len()),
        *old(pos) + 8 + clamped(be_u64_at(data@, *old(pos) as int)) <= data@.len() ==> r is Ok,
{
    let start: usize = *pos;
    let len = ser::read_u64(data, pos)?;
    let take: usize = if len > MAX_PROOF_SIZE as u64 {
        MAX_PROOF_SIZE
    } else {
        len as usize
    };
    let bytes = match ser::read_fixed_bytes(data, pos, take) {
        Ok(b) => b,
        Err(e) => {
            *pos = start;
            return Err(e);
        },
    };
    Ok(RangeProof { bytes })
}

/// The length prefix found at `at` in a buffer.
pub open spec fn be_u64_at(data: Seq<u8>, at: int) -> u64 {
    crate::ser::be_u64(data.subrange(at, at + 8))
}

/// Write a range proof: its logical length as 8 big-endian bytes, then the
/// raw bytes.
pub fn write_range_proof(buf: &mut Vec<u8>, proof: &RangeProof)
    requires
        proof.wf(),
    ensures
        final(buf)@ == old(buf)@ + crate::ser::u64_be(proof@.len() as u64) + proof@,
{
    ser::write_u64(buf, proof.bytes.len() as u64);
    ser::write_fixed_bytes(buf, &proof.bytes);
}

} // verus!
