//! The mix-server session core: what a server does with one accepted
//! submission.
//!
//! The transport boundary (outside this crate) verifies the request's
//! commitment signature against the onion's anchored commitment before
//! this step runs, and forwards the returned packet to the next hop.  The
//! step itself peels exactly one layer and records the extracted excess
//! against the input commitment.

use vstd::prelude::*;

use crate::error::ErrorKind;
use crate::onion;
use crate::onion::{hop_blind, onion_layers_ok};
use crate::secp::{ecdh_of, pubkey_of, scalar_mul_of, scalar_ok, ComSignature, Commitment, SecretKey};
use crate::secp;
use crate::types::{HopV, Onion};

verus! {

/// One accepted submission: the excess this server extracted, the input
/// commitment it is anchored to, and the reduced packet to forward.
#[derive(Debug)]
pub struct Submission {
    pub excess: SecretKey,
    pub input_commit: Commitment,
    pub onion: Onion,
}

/// A client-facing swap request: the packet, the message the client
/// signed, and a commitment signature proving the client owns the output
/// the packet is anchored to.  The boundary checks the signature before
/// the packet is peeled.
#[derive(Debug)]
pub struct SwapReq {
    pub onion: Onion,
    pub msg: Vec<u8>,
    pub comsig: ComSignature,
}

/// Peel one layer of an accepted request and record the result.
///
/// The submission carries the extracted excess, the unchanged input
/// commitment, and the reduced packet (one slot fewer, order kept).  When
/// the packet is a builder's chain whose outermost hop is this server's
/// key, success is owed and the excess is that hop's, byte for byte.  A
/// slot that fails to decrypt and decode — a wrong key, or a corrupt
/// packet — is `InvalidPayload`, distinguishable from the internal
/// `CryptoError`.
pub fn swap(server_key: &SecretKey, req: &SwapReq) -> (r: Result<Submission, ErrorKind>)
    ensures
        r matches Ok(sub) ==> req.onion@.enc_payloads.len() > 0 && sub.input_commit@
            == req.onion@.commit && sub.onion@.commit == req.onion@.commit
            && sub.onion@.enc_payloads == req.onion@.enc_payloads.skip(1),
        r matches Ok(sub) ==> (crate::types::parse_payload(
            crate::onion::peeled_plain(req.onion@, server_key@),
        ) matches Some(p) && sub.excess@ == p.excess),
        r matches Err(e) ==> e == ErrorKind::InvalidPayload || e == ErrorKind::CryptoError,
        req.onion@.enc_payloads.len() > 0 && crate::secp::pk_ok(req.onion@.ephemeral_pubkey)
            && scalar_ok(server_key@) ==> (r == Err::<Submission, ErrorKind>(
            ErrorKind::InvalidPayload,
        ) <==> crate::types::parse_payload(
            crate::onion::peeled_plain(req.onion@, server_key@),
        ) is None),
        forall|session: Seq<u8>, hops: Seq<HopV>|
            (#[trigger] onion_layers_ok(req.onion@, session, hops)) && hops.len() > 0
                && hops[0].pubkey == pubkey_of(server_key@) && scalar_ok(server_key@) ==> (r matches
            Ok(sub) && sub.excess@ == hops[0].payload.excess && onion_layers_ok(
                sub.onion@,
                scalar_mul_of(session, hop_blind(ecdh_of(hops[0].pubkey, session))),
                hops.skip(1),
            )),
{
    let peeled = match onion::peel_layer(&req.onion, server_key) {
        Ok(p) => p,
        Err(e) => {
            return Err(e);
        },
    };
    let (payload, remainder) = peeled;
    Ok(
        Submission {
            excess: payload.excess,
            input_commit: Commitment { bytes: secp::clone_bytes(&req.onion.commit.bytes) },
            onion: remainder,
        },
    )
}

} // verus!
