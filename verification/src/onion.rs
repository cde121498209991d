//! The onion packet protocol: build a multi-hop layered packet, and peel
//! exactly one layer per invocation.
//!
//! The builder walks the route with a running scalar `alpha`, seeded by a
//! fresh session secret.  For each hop it derives a shared secret by ECDH
//! between `alpha` and the hop's public key, derives from that secret — via
//! one keyed pseudo-random stream, at disjoint positions — a symmetric key
//! and a blinding factor, encrypts the hop's serialized payload under the
//! key, and advances `alpha` by the blinding factor.  A hop reverses one
//! step of this with nothing but its own secret key: by commutativity of
//! scalar multiplication it reaches the same shared secret from the
//! packet's ephemeral key, decrypts its payload, and rotates the ephemeral
//! key forward without ever seeing `alpha`.

use vstd::prelude::*;

use crate::error::ErrorKind;
use crate::secp;
use crate::secp::{
    ecdh_of, ecdh_swap_ok, keystream_of, pk_ok, pubkey_of, scalar_mul_of, scalar_ok,
};
use crate::secp::{Commitment, SecretKey};
use crate::types;
use crate::types::{parse_payload, payload_bytes, Hop, HopV, Onion, OnionV, Payload};

verus! {

/// Pointwise exclusive-or; the result has the first argument's length.
pub open spec fn xor_seq(a: Seq<u8>, b: Seq<u8>) -> Seq<u8> {
    Seq::new(a.len(), |i: int| a[i] ^ b[i])
}

/// Exclusive-or with the same bytes twice gives the bytes back; this is
/// what makes one stream-cipher pass undo the other.
pub proof fn lemma_xor_involution(a: Seq<u8>, k: Seq<u8>)
    ensures
        xor_seq(xor_seq(a, k), k) == a,
{
    let x = xor_seq(xor_seq(a, k), k);
    assert forall|i: int| 0 <= i < a.len() implies x[i] == a[i] by {
        let p = a[i];
        let q = k[i];
        assert((p ^ q) ^ q == p) by (bit_vector);
    }
    assert(x =~= a);
}

/// The symmetric key a hop's shared secret yields: the first 32 bytes of
/// the stream keyed by the shared secret.
pub open spec fn hop_key(shared: Seq<u8>) -> Seq<u8> {
    keystream_of(shared, 64).subrange(0, 32)
}

/// The blinding factor a hop's shared secret yields: the second 32 bytes
/// of the same stream — a derivation independent of the symmetric key.
pub open spec fn hop_blind(shared: Seq<u8>) -> Seq<u8> {
    keystream_of(shared, 64).subrange(32, 64)
}

/// One layer's ciphertext: the plaintext against the stream keyed by the
/// layer's symmetric key.
pub open spec fn enc_bytes(key: Seq<u8>, plain: Seq<u8>) -> Seq<u8> {
    xor_seq(plain, keystream_of(key, plain.len() as int))
}

/// The route's public keys, in order.
pub open spec fn pks_of(hops: Seq<HopV>) -> Seq<Seq<u8>> {
    hops.map_values(|h: HopV| h.pubkey)
}

/// The hop list as seen by the specification.
pub open spec fn hops_view(hops: Seq<Hop>) -> Seq<HopV> {
    hops.map_values(|h: Hop| h@)
}

/// The running blinding scalar before hop `i`: the session secret advanced
/// by the blinding factor of every earlier hop.
pub open spec fn alpha_at(session: Seq<u8>, pks: Seq<Seq<u8>>, i: int) -> Seq<u8>
    decreases i,
{
    if i <= 0 {
        session
    } else {
        let prev = alpha_at(session, pks, i - 1);
        scalar_mul_of(prev, hop_blind(ecdh_of(pks[i - 1], prev)))
    }
}

/// What `create_onion` guarantees of its packet, and what one peel
/// preserves for the remaining hops: the ephemeral key is the current
/// session scalar's public key, every scalar in the chain is valid, and
/// slot `i` holds hop `i`'s payload encrypted under the key its shared
/// secret yields.
pub open spec fn onion_layers_ok(o: OnionV, session: Seq<u8>, hops: Seq<HopV>) -> bool {
    &&& o.ephemeral_pubkey == pubkey_of(session)
    &&& pk_ok(o.ephemeral_pubkey)
    &&& o.enc_payloads.len() == hops.len()
    &&& forall|i: int|
        0 <= i <= hops.len() ==> scalar_ok(#[trigger] alpha_at(session, pks_of(hops), i))
    &&& forall|i: int|
        0 <= i < hops.len() ==> (#[trigger] hops[i].payload).wf() && scalar_ok(
            hops[i].payload.excess,
        )
    &&& forall|i: int|
        0 <= i < hops.len() ==> #[trigger] o.enc_payloads[i] == enc_bytes(
            hop_key(ecdh_of(hops[i].pubkey, alpha_at(session, pks_of(hops), i))),
            payload_bytes(hops[i].payload),
        )
    &&& forall|i: int|
        0 <= i < hops.len() ==> scalar_ok(
            #[trigger] hop_blind(ecdh_of(hops[i].pubkey, alpha_at(session, pks_of(hops), i))),
        )
}

/// The inputs on which construction is owed success: a valid session
/// scalar, valid route points, and a chain whose derived blinding factors
/// all land on valid scalars (failure of that is a chance event the
/// primitives report as `CryptoError`).
pub open spec fn route_ok(session: Seq<u8>, hops: Seq<HopV>) -> bool {
    &&& scalar_ok(session)
    &&& forall|i: int| 0 <= i < hops.len() ==> pk_ok(#[trigger] hops[i].pubkey)
    &&& forall|i: int|
        0 <= i < hops.len() ==> scalar_ok((#[trigger] hops[i].payload).excess)
    &&& forall|i: int|
        0 <= i < hops.len() ==> scalar_ok(
            #[trigger] hop_blind(ecdh_of(hops[i].pubkey, alpha_at(session, pks_of(hops), i))),
        )
}

/// Copy a range out of a byte vector.
#[verifier::loop_isolation(false)]
fn sub_bytes(v: &Vec<u8>, start: usize, end: usize) -> (r: Vec<u8>)
    requires
        start <= end,
        end <= v@.len(),
    ensures
        r@ == v@.subrange(start as int, end as int),
{
    let mut out: Vec<u8> = Vec::new();
    let mut i: usize = start;
    while i < end
        invariant
            start <= i <= end,
            out@ == v@.subrange(start as int, i as int),
        decreases end - i,
    {
        proof {
            assert(v@.subrange(start as int, i as int).push(v@[i as int]) =~= v@.subrange(
                start as int,
                i as int + 1,
            ));
        }
        out.push(v[i]);
        i = i + 1;
    }
    out
}

/// Pointwise exclusive-or of two equal-length byte vectors.
#[verifier::loop_isolation(false)]
fn xor_bytes(a: &Vec<u8>, b: &Vec<u8>) -> (r: Vec<u8>)
    requires
        a@.len() == b@.len(),
    ensures
        r@ == xor_seq(a@, b@),
{
    let mut out: Vec<u8> = Vec::new();
    let mut i: usize = 0;
    while i < a.len()
        invariant
            i <= a@.len(),
            out@.len() == i,
            forall|j: int| 0 <= j < i ==> out@[j] == (a@[j] ^ b@[j]),
        decreases a@.len() - i,
    {
        out.push(a[i] ^ b[i]);
        i = i + 1;
    }
    proof {
        assert(out@ =~= xor_seq(a@, b@));
    }
    out
}

/// Build a layered packet over an ordered route.
///
/// The packet is anchored to `initial_commit`, carries one ciphertext slot
/// per hop (outermost first), and its ephemeral key is the session
/// secret's public key.  An empty route is `InvalidRoute`; any primitive
/// failure (an invalid scalar or point somewhere in the chain, or a hop
/// excess that is not a valid scalar) is `CryptoError`.  On the inputs
/// `route_ok` describes, success is owed.
#[verifier::loop_isolation(false)]
#[verifier::rlimit(100)]
#[verifier::spinoff_prover]
pub fn create_onion(initial_commit: &Commitment, session_secret: &SecretKey, hops: &Vec<Hop>) -> (r:
    Result<Onion, ErrorKind>)
    requires
        forall|i: int| 0 <= i < hops@.len() ==> (#[trigger] hops@[i]).payload.wf(),
    ensures
        hops@.len() == 0 <==> r == Err::<Onion, ErrorKind>(ErrorKind::InvalidRoute),
        r matches Ok(o) ==> o@.commit == initial_commit@ && o@.enc_payloads.len() == hops@.len()
            && onion_layers_ok(o@, session_secret@, hops_view(hops@)),
        r matches Err(e) ==> e == ErrorKind::InvalidRoute || e == ErrorKind::CryptoError,
        hops@.len() > 0 && route_ok(session_secret@, hops_view(hops@)) ==> r is Ok,
{
    if hops.len() == 0 {
        return Err(ErrorKind::InvalidRoute);
    }
    let first_pub = match secp::to_public_key(session_secret) {
        Ok(k) => k,
        Err(_) => {
            return Err(ErrorKind::CryptoError);
        },
    };
    let ghost hv = hops_view(hops@);
    let ghost pks = pks_of(hv);
    let mut alpha = SecretKey { bytes: secp::clone_bytes(&session_secret.bytes) };
    let mut blobs: Vec<Vec<u8>> = Vec::new();
    let mut i: usize = 0;
    while i < hops.len()
        invariant
            i <= hops@.len(),
            alpha@ == alpha_at(session_secret@, pks, i as int),
            forall|j: int|
                0 <= j <= i ==> scalar_ok(#[trigger] alpha_at(session_secret@, pks, j)),
            forall|j: int|
                0 <= j < i ==> scalar_ok(
                    #[trigger] hop_blind(ecdh_of(pks[j], alpha_at(session_secret@, pks, j))),
                ),
            forall|j: int| 0 <= j < i ==> scalar_ok((#[trigger] hv[j].payload).excess),
            blobs@.len() == i,
            forall|j: int|
                0 <= j < i ==> #[trigger] blobs@[j]@ == enc_bytes(
                    hop_key(ecdh_of(hv[j].pubkey, alpha_at(session_secret@, pks, j))),
                    payload_bytes(hv[j].payload),
                ),
        decreases hops@.len() - i,
    {
        let hop = &hops[i];
        proof {
            assert(hv[i as int] == hops@[i as int]@);
            assert(pks[i as int] == hv[i as int].pubkey);
        }
        match secp::parse_secret(&hop.payload.excess.bytes) {
            Ok(_checked) => {},
            Err(_) => {
                proof {
                    if route_ok(session_secret@, hv) {
                        assert(scalar_ok(hv[i as int].payload.excess));
                        assert(false);
                    }
                }
                return Err(ErrorKind::CryptoError);
            },
        }
        let shared = match secp::ecdh(&hop.pubkey, &alpha) {
            Ok(s) => s,
            Err(_) => {
                proof {
                    if route_ok(session_secret@, hv) {
                        assert(pk_ok(hv[i as int].pubkey));
                        assert(scalar_ok(alpha_at(session_secret@, pks, i as int)));
                        assert(false);
                    }
                }
                return Err(ErrorKind::CryptoError);
            },
        };
        let kb = secp::keystream(&shared, 64);
        let key = sub_bytes(&kb, 0, 32);
        let blind_bytes = sub_bytes(&kb, 32, 64);
        let blind = match secp::parse_secret(&blind_bytes) {
            Ok(k) => k,
            Err(_) => {
                proof {
                    if route_ok(session_secret@, hv) {
                        assert(scalar_ok(
                            hop_blind(
                                ecdh_of(
                                    hv[i as int].pubkey,
                                    alpha_at(session_secret@, pks, i as int),
                                ),
                            ),
                        ));
                        assert(blind_bytes@ == hop_blind(shared@));
                        assert(false);
                    }
                }
                return Err(ErrorKind::CryptoError);
            },
        };
        let plain = match types::serialize_payload(&hop.payload) {
            Ok(b) => b,
            Err(_) => {
                proof {
                    assert(hops@[i as int].payload.wf());
                    assert(false);
                }
                return Err(ErrorKind::CryptoError);
            },
        };
        let ks = secp::keystream(&key, plain.len());
        let cipher = xor_bytes(&plain, &ks);
        blobs.push(cipher);
        let next_alpha = match secp::scalar_mul(&alpha, &blind) {
            Ok(k) => k,
            Err(_) => {
                proof {
                    if route_ok(session_secret@, hv) {
                        assert(scalar_ok(alpha_at(session_secret@, pks, i as int)));
                        assert(scalar_ok(blind@));
                        assert(false);
                    }
                }
                return Err(ErrorKind::CryptoError);
            },
        };
        proof {
            assert(alpha_at(session_secret@, pks, i + 1) == scalar_mul_of(
                alpha_at(session_secret@, pks, i as int),
                hop_blind(ecdh_of(pks[i as int], alpha_at(session_secret@, pks, i as int))),
            ));
        }
        alpha = next_alpha;
        i = i + 1;
    }
    let onion = Onion {
        ephemeral_pubkey: first_pub,
        commit: Commitment { bytes: secp::clone_bytes(&initial_commit.bytes) },
        enc_payloads: blobs,
    };
    proof {
        assert(onion@.enc_payloads =~= onion.enc_payloads@.map_values(|v: Vec<u8>| v@));
        assert forall|j: int| 0 <= j < hv.len() implies #[trigger] onion@.enc_payloads[j]
            == enc_bytes(
            hop_key(ecdh_of(hv[j].pubkey, alpha_at(session_secret@, pks, j))),
            payload_bytes(hv[j].payload),
        ) by {
            assert(onion@.enc_payloads[j] == onion.enc_payloads@[j]@);
        }
    }
    Ok(onion)
}

/// The facts one peel step rests on: with the builder's chain in the
/// packet and the peeling key matching the outermost hop, the hop reaches
/// the builder's shared secret, the decrypted slot is exactly the hop's
/// encoded payload, and the derived blinding factor is a valid scalar.
proof fn lemma_peel_core(o: OnionV, session: Seq<u8>, hops: Seq<HopV>, hs: Seq<u8>, shared: Seq<u8>)
    requires
        onion_layers_ok(o, session, hops),
        hops.len() > 0,
        hops[0].pubkey == pubkey_of(hs),
        ecdh_swap_ok(o.ephemeral_pubkey, hs, shared),
    ensures
        shared == ecdh_of(hops[0].pubkey, session),
        o.enc_payloads[0].len() == payload_bytes(hops[0].payload).len(),
        xor_seq(
            o.enc_payloads[0],
            keystream_of(hop_key(shared), o.enc_payloads[0].len() as int),
        ) == payload_bytes(hops[0].payload),
        parse_payload(
            xor_seq(
                o.enc_payloads[0],
                keystream_of(hop_key(shared), o.enc_payloads[0].len() as int),
            ),
        ) == Some(hops[0].payload),
        scalar_ok(hop_blind(shared)),
        scalar_ok(session),
{
    assert(alpha_at(session, pks_of(hops), 0) == session);
    assert(o.ephemeral_pubkey == pubkey_of(session));
    assert(shared == ecdh_of(pubkey_of(hs), session));
    assert(shared == ecdh_of(hops[0].pubkey, session));
    let pb = payload_bytes(hops[0].payload);
    assert(o.enc_payloads[0] == enc_bytes(hop_key(shared), pb));
    let ks = keystream_of(hop_key(shared), pb.len() as int);
    assert(o.enc_payloads[0] == xor_seq(pb, ks));
    assert(o.enc_payloads[0].len() == pb.len());
    lemma_xor_involution(pb, ks);
    types::lemma_payload_roundtrip(hops[0].payload);
}

/// The blinding scalar advanced over hop `i` of the shorter route equals
/// the scalar before hop `i + 1` of the full route.
proof fn lemma_alpha_shift(session: Seq<u8>, pks: Seq<Seq<u8>>, i: int)
    requires
        0 <= i < pks.len(),
    ensures
        alpha_at(
            scalar_mul_of(session, hop_blind(ecdh_of(pks[0], session))),
            pks.skip(1),
            i,
        ) == alpha_at(session, pks, i + 1),
    decreases i,
{
    let session2 = scalar_mul_of(session, hop_blind(ecdh_of(pks[0], session)));
    if i == 0 {
        assert(alpha_at(session2, pks.skip(1), 0) == session2);
        assert(alpha_at(session, pks, 0) == session);
    } else {
        lemma_alpha_shift(session, pks, i - 1);
        assert(pks.skip(1)[i - 1] == pks[i]);
    }
}

/// After one peel, the remaining packet carries the builder's chain for
/// the remaining hops, under the advanced session scalar.
proof fn lemma_peel_tail(o: OnionV, session: Seq<u8>, hops: Seq<HopV>, o2: OnionV)
    requires
        onion_layers_ok(o, session, hops),
        hops.len() > 0,
        o2.ephemeral_pubkey == pubkey_of(
            scalar_mul_of(session, hop_blind(ecdh_of(hops[0].pubkey, session))),
        ),
        pk_ok(o2.ephemeral_pubkey),
        o2.enc_payloads == o.enc_payloads.skip(1),
    ensures
        onion_layers_ok(
            o2,
            scalar_mul_of(session, hop_blind(ecdh_of(hops[0].pubkey, session))),
            hops.skip(1),
        ),
{
    let session2 = scalar_mul_of(session, hop_blind(ecdh_of(hops[0].pubkey, session)));
    let hops2 = hops.skip(1);
    let pks = pks_of(hops);
    let pks2 = pks_of(hops2);
    assert(pks[0] == hops[0].pubkey);
    assert(pks2 =~= pks.skip(1));
    assert(alpha_at(session, pks, 0) == session);
    assert forall|i: int| 0 <= i <= hops2.len() implies scalar_ok(
        #[trigger] alpha_at(session2, pks2, i),
    ) by {
        lemma_alpha_shift(session, pks, i);
        assert(scalar_ok(alpha_at(session, pks, i + 1)));
    }
    assert forall|i: int| 0 <= i < hops2.len() implies (#[trigger] hops2[i].payload).wf() by {
        assert(hops2[i] == hops[i + 1]);
    }
    assert forall|i: int| 0 <= i < hops2.len() implies #[trigger] o2.enc_payloads[i] == enc_bytes(
        hop_key(ecdh_of(hops2[i].pubkey, alpha_at(session2, pks2, i))),
        payload_bytes(hops2[i].payload),
    ) by {
        lemma_alpha_shift(session, pks, i);
        assert(hops2[i] == hops[i + 1]);
        assert(o2.enc_payloads[i] == o.enc_payloads[i + 1]);
    }
    assert forall|i: int| 0 <= i < hops2.len() implies scalar_ok(
        #[trigger] hop_blind(ecdh_of(hops2[i].pubkey, alpha_at(session2, pks2, i))),
    ) by {
        lemma_alpha_shift(session, pks, i);
        assert(hops2[i] == hops[i + 1]);
    }
}

/// The bytes one peel attempt uncovers in the outermost slot: the slot
/// against the stream keyed by the symmetric key that the peeling key
/// reaches through ECDH with the packet's ephemeral key.
pub open spec fn peeled_plain(o: OnionV, hs: Seq<u8>) -> Seq<u8> {
    xor_seq(
        o.enc_payloads[0],
        keystream_of(hop_key(ecdh_of(o.ephemeral_pubkey, hs)), o.enc_payloads[0].len() as int),
    )
}

/// Peel exactly one layer off a packet.
///
/// The returned payload is the one the outermost slot hides; the returned
/// packet keeps the anchored commitment bit-identical, drops the consumed
/// slot, preserves the order of the rest, and rotates the ephemeral key by
/// the derived blinding factor.  A packet with no remaining layer, a wrong
/// key, or a corrupt slot is `InvalidPayload`; an invalid scalar or point
/// is `CryptoError`.  When the packet really is the builder's chain and
/// the key matches the outermost hop, success is owed and the recovered
/// payload is that hop's, byte for byte.
#[verifier::loop_isolation(false)]
#[verifier::rlimit(100)]
pub fn peel_layer(onion: &Onion, hop_secret: &SecretKey) -> (r: Result<(Payload, Onion), ErrorKind>)
    ensures
        onion@.enc_payloads.len() == 0 ==> r == Err::<(Payload, Onion), ErrorKind>(
            ErrorKind::InvalidPayload,
        ),
        r matches Ok(pr) ==> onion@.enc_payloads.len() > 0 && pr.1@.commit == onion@.commit
            && pr.1@.enc_payloads == onion@.enc_payloads.skip(1) && pr.0.wf(),
        r matches Ok(pr) ==> parse_payload(peeled_plain(onion@, hop_secret@)) == Some(pr.0@),
        r matches Err(e) ==> e == ErrorKind::InvalidPayload || e == ErrorKind::CryptoError,
        onion@.enc_payloads.len() > 0 && pk_ok(onion@.ephemeral_pubkey) && scalar_ok(hop_secret@)
            ==> (r == Err::<(Payload, Onion), ErrorKind>(ErrorKind::InvalidPayload)
            <==> parse_payload(peeled_plain(onion@, hop_secret@)) is None),
        onion@.enc_payloads.len() > 0 && pk_ok(onion@.ephemeral_pubkey) && scalar_ok(hop_secret@)
            && parse_payload(peeled_plain(onion@, hop_secret@)) is Some && scalar_ok(
            hop_blind(ecdh_of(onion@.ephemeral_pubkey, hop_secret@)),
        ) ==> r is Ok,
        forall|session: Seq<u8>, hops: Seq<HopV>|
            (#[trigger] onion_layers_ok(onion@, session, hops)) && hops.len() > 0
                && hops[0].pubkey == pubkey_of(hop_secret@) && scalar_ok(hop_secret@) ==> (r matches
            Ok(pr) && pr.0@ == hops[0].payload && onion_layers_ok(
                pr.1@,
                scalar_mul_of(session, hop_blind(ecdh_of(hops[0].pubkey, session))),
                hops.skip(1),
            )),
{
    if onion.enc_payloads.len() == 0 {
        return Err(ErrorKind::InvalidPayload);
    }
    let shared = match secp::ecdh(&onion.ephemeral_pubkey, hop_secret) {
        Ok(s) => s,
        Err(_) => {
            return Err(ErrorKind::CryptoError);
        },
    };
    let kb = secp::keystream(&shared, 64);
    let key = sub_bytes(&kb, 0, 32);
    let blind_bytes = sub_bytes(&kb, 32, 64);
    let blob = &onion.enc_payloads[0];
    let ks = secp::keystream(&key, blob.len());
    let plain = xor_bytes(blob, &ks);
    proof {
        assert(blob@ == onion@.enc_payloads[0]);
        assert forall|session: Seq<u8>, hops: Seq<HopV>|
            (#[trigger] onion_layers_ok(onion@, session, hops)) && hops.len() > 0
                && hops[0].pubkey == pubkey_of(hop_secret@) && scalar_ok(
                hop_secret@,
            ) implies parse_payload(plain@) == Some(hops[0].payload) && scalar_ok(
            hop_blind(shared@),
        ) by {
            lemma_peel_core(onion@, session, hops, hop_secret@, shared@);
        }
    }
    let payload = match types::deserialize_payload(&plain) {
        Ok(p) => p,
        Err(_) => {
            return Err(ErrorKind::InvalidPayload);
        },
    };
    let blind = match secp::parse_secret(&blind_bytes) {
        Ok(k) => k,
        Err(_) => {
            return Err(ErrorKind::CryptoError);
        },
    };
    let next_pub = match secp::point_mul(&onion.ephemeral_pubkey, &blind) {
        Ok(k) => k,
        Err(_) => {
            return Err(ErrorKind::CryptoError);
        },
    };
    let mut rest: Vec<Vec<u8>> = Vec::new();
    let mut i: usize = 1;
    while i < onion.enc_payloads.len()
        invariant
            1 <= i <= onion@.enc_payloads.len(),
            rest@.len() == i - 1,
            forall|j: int| 0 <= j < i - 1 ==> #[trigger] rest@[j]@ == onion@.enc_payloads[j + 1],
        decreases onion@.enc_payloads.len() - i,
    {
        rest.push(secp::clone_bytes(&onion.enc_payloads[i]));
        i = i + 1;
    }
    let next = Onion {
        ephemeral_pubkey: next_pub,
        commit: Commitment { bytes: secp::clone_bytes(&onion.commit.bytes) },
        enc_payloads: rest,
    };
    proof {
        assert(next@.enc_payloads =~= onion@.enc_payloads.skip(1));
        assert forall|session: Seq<u8>, hops: Seq<HopV>|
            (#[trigger] onion_layers_ok(onion@, session, hops)) && hops.len() > 0
                && hops[0].pubkey == pubkey_of(hop_secret@) && scalar_ok(
                hop_secret@,
            ) implies payload@ == hops[0].payload && onion_layers_ok(
            next@,
            scalar_mul_of(session, hop_blind(ecdh_of(hops[0].pubkey, session))),
            hops.skip(1),
        ) by {
            lemma_peel_core(onion@, session, hops, hop_secret@, shared@);
            assert(next@.ephemeral_pubkey == pubkey_of(
                scalar_mul_of(session, hop_blind(ecdh_of(hops[0].pubkey, session))),
            ));
            lemma_peel_tail(onion@, session, hops, next@);
        }
    }
    Ok((payload, next))
}

} // verus!
