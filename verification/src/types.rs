//! The records of the onion protocol and the wire form of the payload.
//!
//! A `Payload` encodes as: a 1-byte presence flag for the routing info
//! (whose body is empty), the raw 32-byte excess scalar, a 1-byte presence
//! flag for the range proof, and — only when that flag is 1 — the proof as
//! a length-prefixed variable-size field.  Decoding accepts exactly the
//! encodings this module produces, byte for byte, and rejects an excess
//! that is not a valid scalar: no invalid scalar survives decoding.

use vstd::prelude::*;

use crate::error::ErrorKind;
use crate::secp;
use crate::secp::{clamped, scalar_ok, Commitment, PublicKey, RangeProof, SecretKey};
use crate::secp::{MAX_PROOF_SIZE, SECRET_KEY_SIZE};
use crate::ser;
use crate::ser::{be_u64, u64_be};

verus! {

/// Forwarding metadata reserved for future use; it carries no data and
/// encodes as a presence flag with no body.
#[derive(Debug)]
pub struct RoutingInfo {}

/// The record hidden inside one onion layer: the blinding excess this hop
/// must contribute, optional routing info, and — on the terminal hop only —
/// a range proof for the final output commitment.
#[derive(Debug)]
pub struct Payload {
    pub routing_info: Option<RoutingInfo>,
    pub excess: SecretKey,
    pub rangeproof: Option<RangeProof>,
}

/// The mathematical shape of a payload: presence of routing info, the raw
/// excess bytes, and the raw proof bytes when present.
#[verifier::ext_equal]
pub ghost struct PayloadV {
    pub has_routing: bool,
    pub excess: Seq<u8>,
    pub rangeproof: Option<Seq<u8>>,
}

impl View for Payload {
    type V = PayloadV;

    open spec fn view(&self) -> PayloadV {
        PayloadV {
            has_routing: self.routing_info is Some,
            excess: self.excess@,
            rangeproof: match self.rangeproof {
                Some(rp) => Some(rp@),
                None => None,
            },
        }
    }
}

impl PayloadV {
    /// A valid payload holds a 32-byte excess and a proof within the size
    /// bound.
    pub open spec fn wf(&self) -> bool {
        &&& self.excess.len() == SECRET_KEY_SIZE
        &&& match self.rangeproof {
            Some(rp) => rp.len() <= MAX_PROOF_SIZE,
            None => true,
        }
    }
}

impl Payload {
    /// A valid payload holds a 32-byte excess and a proof within the size
    /// bound.
    pub open spec fn wf(&self) -> bool {
        self@.wf()
    }
}

/// The transmitted packet: the rotating blinding-chain public key, the
/// input commitment the packet is anchored to, and one encrypted blob per
/// remaining hop, outermost first.
#[derive(Debug)]
pub struct Onion {
    pub ephemeral_pubkey: PublicKey,
    pub commit: Commitment,
    pub enc_payloads: Vec<Vec<u8>>,
}

/// The mathematical shape of an onion.
#[verifier::ext_equal]
pub ghost struct OnionV {
    pub ephemeral_pubkey: Seq<u8>,
    pub commit: Seq<u8>,
    pub enc_payloads: Seq<Seq<u8>>,
}

impl View for Onion {
    type V = OnionV;

    open spec fn view(&self) -> OnionV {
        OnionV {
            ephemeral_pubkey: self.ephemeral_pubkey@,
            commit: self.commit@,
            enc_payloads: self.enc_payloads@.map_values(|v: Vec<u8>| v@),
        }
    }
}

/// One element of the ordered route, known only to the onion's builder: a
/// hop's public key and the payload intended for that hop.  Hops are never
/// transmitted.
#[derive(Debug)]
pub struct Hop {
    pub pubkey: PublicKey,
    pub payload: Payload,
}

/// The mathematical shape of a hop.
#[verifier::ext_equal]
pub ghost struct HopV {
    pub pubkey: Seq<u8>,
    pub payload: PayloadV,
}

impl View for Hop {
    type V = HopV;

    open spec fn view(&self) -> HopV {
        HopV { pubkey: self.pubkey@, payload: self.payload@ }
    }
}

/// The byte encoding of a payload: routing flag, raw excess, proof flag,
/// then the length-prefixed proof when present.
pub open spec fn payload_bytes(p: PayloadV) -> Seq<u8> {
    seq![
        if p.has_routing {
            1u8
        } else {
            0u8
        },
    ] + p.excess + (match p.rangeproof {
        None => seq![0u8],
        Some(rp) => seq![1u8] + u64_be(rp.len() as u64) + rp,
    })
}

/// The payload read back from bytes: `Some` exactly on the encodings that
/// `payload_bytes` produces (with the declared proof length clamped before
/// any byte of the proof is read).
pub open spec fn parse_payload(s: Seq<u8>) -> Option<PayloadV> {
    if s.len() < 34 {
        None
    } else if s[0] != 0 && s[0] != 1 {
        None
    } else if !scalar_ok(s.subrange(1, 33)) {
        None
    } else if s[33] == 0 {
        if s.len() == 34 {
            Some(PayloadV { has_routing: s[0] == 1, excess: s.subrange(1, 33), rangeproof: None })
        } else {
            None
        }
    } else if s[33] != 1 {
        None
    } else if s.len() < 42 {
        None
    } else {
        let l = clamped(be_u64(s.subrange(34, 42)));
        if s.len() == 42 + l {
            Some(
                PayloadV {
                    has_routing: s[0] == 1,
                    excess: s.subrange(1, 33),
                    rangeproof: Some(s.subrange(42, 42 + l)),
                },
            )
        } else {
            None
        }
    }
}

/// Round trip: decoding an encoded payload yields that payload, for every
/// valid payload (sizes in bounds, the excess a valid scalar), with or
/// without routing info, with or without a proof.
pub proof fn lemma_payload_roundtrip(p: PayloadV)
    requires
        p.wf(),
        scalar_ok(p.excess),
    ensures
        parse_payload(payload_bytes(p)) == Some(p),
{
    let s = payload_bytes(p);
    let f: u8 = if p.has_routing {
        1u8
    } else {
        0u8
    };
    match p.rangeproof {
        None => {
            assert(s =~= seq![f] + p.excess + seq![0u8]);
            assert(s.len() == 34);
            assert(s[0] == f);
            assert(s[33] == 0);
            assert(s.subrange(1, 33) =~= p.excess);
            assert(parse_payload(s) matches Some(q) && q =~= p);
        },
        Some(rp) => {
            let l: u64 = rp.len() as u64;
            ser::lemma_u64_roundtrip(l);
            assert(s =~= seq![f] + p.excess + seq![1u8] + u64_be(l) + rp);
            assert(s.len() == 42 + rp.len() as int);
            assert(s[0] == f);
            assert(s[33] == 1);
            assert(s.subrange(1, 33) =~= p.excess);
            assert(s.subrange(34, 42) =~= u64_be(l));
            assert(clamped(be_u64(s.subrange(34, 42))) == rp.len());
            assert(s.subrange(42, 42 + rp.len() as int) =~= rp);
            assert(parse_payload(s) matches Some(q) && q =~= p);
        },
    }
}

/// Serialize a payload to its byte encoding; a payload whose fields break
/// the size bounds is `CorruptedData`.
pub fn serialize_payload(payload: &Payload) -> (r: Result<Vec<u8>, ErrorKind>)
    ensures
        payload.wf() ==> (r matches Ok(b) && b@ == payload_bytes(payload@)),
        !payload.wf() ==> r == Err::<Vec<u8>, ErrorKind>(ErrorKind::CorruptedData),
{
    if payload.excess.bytes.len() != SECRET_KEY_SIZE {
        return Err(ErrorKind::CorruptedData);
    }
    match &payload.rangeproof {
        Some(proof) => {
            if proof.bytes.len() > MAX_PROOF_SIZE {
                return Err(ErrorKind::CorruptedData);
            }
        },
        None => {},
    }
    let mut buf: Vec<u8> = Vec::new();
    match &payload.routing_info {
        Some(_r) => ser::write_u8(&mut buf, 1),
        None => ser::write_u8(&mut buf, 0),
    }
    secp::write_secret_key(&mut buf, &payload.excess);
    match &payload.rangeproof {
        Some(proof) => {
            ser::write_u8(&mut buf, 1);
            secp::write_range_proof(&mut buf, proof);
        },
        None => ser::write_u8(&mut buf, 0),
    }
    proof {
        assert(buf@ =~= payload_bytes(payload@));
    }
    Ok(buf)
}

/// Decode a payload from bytes; anything but an exact encoding carrying a
/// valid excess scalar is `CorruptedData`.
pub fn deserialize_payload(bytes: &Vec<u8>) -> (r: Result<Payload, ErrorKind>)
    ensures
        r matches Ok(p) ==> parse_payload(bytes@) == Some(p@) && p.wf(),
        r matches Err(e) ==> parse_payload(bytes@) is None && e == ErrorKind::CorruptedData,
{
    let mut pos: usize = 0;
    let flag = ser::read_u8(bytes, &mut pos)?;
    if flag != 0 && flag != 1 {
        return Err(ErrorKind::CorruptedData);
    }
    let routing_info = if flag == 1 {
        Some(RoutingInfo {  })
    } else {
        None
    };
    let excess = secp::read_secret_key(bytes, &mut pos)?;
    let flag2 = ser::read_u8(bytes, &mut pos)?;
    let rangeproof = if flag2 == 0 {
        None
    } else if flag2 == 1 {
        Some(secp::read_range_proof(bytes, &mut pos)?)
    } else {
        return Err(ErrorKind::CorruptedData);
    };
    if pos != bytes.len() {
        return Err(ErrorKind::CorruptedData);
    }
    let payload = Payload { routing_info, excess, rangeproof };
    proof {
        assert(parse_payload(bytes@) matches Some(q) && q =~= payload@);
    }
    Ok(payload)
}

} // verus!
