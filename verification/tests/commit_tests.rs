use mwixnet::error::ErrorKind;
use mwixnet::onion::{create_onion, peel_layer};
use mwixnet::secp;
use mwixnet::secp::{RangeProof, SecretKey, MAX_PROOF_SIZE};
use mwixnet::types::{Hop, Payload};

fn rand_sk() -> SecretKey {
    secp::insecure_rand_secret().unwrap()
}

#[test]
fn commit_rejects_invalid_scalar() {
    let zero = SecretKey { bytes: vec![0u8; 32] };
    assert_eq!(secp::commit(5, &zero).unwrap_err(), ErrorKind::CryptoError);
    assert_eq!(secp::add_excess(&secp::commit(5, &rand_sk()).unwrap(), &zero).unwrap_err(),
        ErrorKind::CryptoError);
}

#[test]
fn homomorphism_matches_direct_commitment() {
    let value: u64 = 100;
    let b = rand_sk();
    let e1 = rand_sk();
    let e2 = rand_sk();
    let c = secp::commit(value, &b).unwrap();
    // shifting the commitment must change it
    let c1 = secp::add_excess(&c, &e1).unwrap();
    assert_ne!(c1.bytes, c.bytes);
    let seq_12 = secp::add_excess(&c1, &e2).unwrap();
    let seq_21 = secp::add_excess(&secp::add_excess(&c, &e2).unwrap(), &e1).unwrap();
    let bsum = secp::scalar_add(&secp::scalar_add(&b, &e1).unwrap(), &e2).unwrap();
    let direct = secp::commit(value, &bsum).unwrap();
    assert_eq!(seq_12.bytes, direct.bytes);
    // the two application orders commute
    assert_eq!(seq_21.bytes, direct.bytes);
    // the whole-route fold agrees with the sequential shifts
    let folded = secp::add_excesses(&c, &vec![
        SecretKey { bytes: e1.bytes.clone() },
        SecretKey { bytes: e2.bytes.clone() },
    ])
    .unwrap();
    assert_eq!(folded.bytes, direct.bytes);
}

#[test]
fn add_excesses_fails_only_on_a_refused_step() {
    let c = secp::commit(7, &rand_sk()).unwrap();
    // a zero scalar in the middle of the list refuses the whole fold
    let es = vec![rand_sk(), SecretKey { bytes: vec![0u8; 32] }, rand_sk()];
    assert_eq!(secp::add_excesses(&c, &es).unwrap_err(), ErrorKind::CryptoError);
    // an empty list returns the commitment unchanged
    let same = secp::add_excesses(&c, &Vec::new()).unwrap();
    assert_eq!(same.bytes, c.bytes);
}

#[test]
fn scalar_add_is_commutative_and_changes_the_scalar() {
    let a = rand_sk();
    let b = rand_sk();
    let ab = secp::scalar_add(&a, &b).unwrap();
    let ba = secp::scalar_add(&b, &a).unwrap();
    assert_eq!(ab.bytes, ba.bytes);
    assert_ne!(ab.bytes, a.bytes);
}

#[test]
fn end_to_end_swap_scenario() {
    let secp_full = secp256k1zkp::Secp256k1::with_caps(secp256k1zkp::ContextFlag::Commit);
    let value: u64 = 1000;
    let blind = rand_sk();
    let commitment = secp::commit(value, &blind).unwrap();
    let session = rand_sk();

    let mut keys: Vec<SecretKey> = Vec::new();
    let mut hops: Vec<Hop> = Vec::new();
    let mut latest_commit = secp::Commitment { bytes: commitment.bytes.clone() };
    let mut latest_blind = SecretKey { bytes: blind.bytes.clone() };
    for i in 0..5 {
        let key = rand_sk();
        let excess = rand_sk();
        latest_blind = secp::scalar_add(&latest_blind, &excess).unwrap();
        latest_commit = secp::add_excess(&latest_commit, &excess).unwrap();
        let proof = if i == 4 {
            let final_blind =
                secp256k1zkp::key::SecretKey::from_slice(&secp_full, &latest_blind.bytes).unwrap();
            let n1 = secp256k1zkp::key::SecretKey::from_slice(&secp_full, &rand_sk().bytes)
                .unwrap();
            let rp = secp_full.bullet_proof(value, final_blind, n1.clone(), n1.clone(), None, None);
            Some(RangeProof { bytes: rp.proof[..rp.plen].to_vec() })
        } else {
            None
        };
        hops.push(Hop {
            pubkey: secp::to_public_key(&key).unwrap(),
            payload: Payload {
                routing_info: None,
                excess: SecretKey { bytes: excess.bytes.clone() },
                rangeproof: proof,
            },
        });
        keys.push(key);
    }

    let mut onion = create_onion(&commitment, &session, &hops).unwrap();
    let mut last_payload: Option<Payload> = None;
    for key in keys.iter() {
        let (payload, rest) = peel_layer(&onion, key).unwrap();
        last_payload = Some(payload);
        onion = rest;
    }
    assert_eq!(onion.enc_payloads.len(), 0);

    // the terminal payload carries the proof for the final commitment
    let proof_bytes = last_payload.unwrap().rangeproof.expect("terminal proof").bytes;
    assert!(proof_bytes.len() <= MAX_PROOF_SIZE);

    // the independently recomputed final commitment matches byte for byte
    let final_commit = secp::commit(value, &latest_blind).unwrap();
    assert_eq!(final_commit.bytes, latest_commit.bytes);

    // and the recovered proof verifies against it
    let mut arr = [0u8; 33];
    arr.copy_from_slice(&final_commit.bytes);
    let zk_commit = secp256k1zkp::pedersen::Commitment(arr);
    let mut proof_arr = [0u8; secp256k1zkp::constants::MAX_PROOF_SIZE];
    proof_arr[..proof_bytes.len()].copy_from_slice(&proof_bytes);
    let zk_proof =
        secp256k1zkp::pedersen::RangeProof { proof: proof_arr, plen: proof_bytes.len() };
    secp_full.verify_bullet_proof(zk_commit, zk_proof, None).expect("range proof verifies");
}
