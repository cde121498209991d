use mwixnet::error::ErrorKind;
use mwixnet::onion::{create_onion, peel_layer};
use mwixnet::secp;
use mwixnet::secp::{RangeProof, SecretKey};
use mwixnet::server::{swap, SwapReq};
use mwixnet::types::{serialize_payload, Hop, Onion, Payload, RoutingInfo};

fn payload_for(excess: &SecretKey, proof: Option<RangeProof>) -> Payload {
    Payload {
        routing_info: None,
        excess: SecretKey { bytes: excess.bytes.clone() },
        rangeproof: proof,
    }
}

fn route(n: usize) -> (Vec<SecretKey>, Vec<Hop>) {
    let mut keys: Vec<SecretKey> = Vec::new();
    let mut hops: Vec<Hop> = Vec::new();
    for i in 0..n {
        let key = secp::insecure_rand_secret().unwrap();
        let excess = secp::insecure_rand_secret().unwrap();
        let proof = if i == n - 1 {
            Some(RangeProof { bytes: vec![42u8; 17] })
        } else {
            None
        };
        hops.push(Hop {
            pubkey: secp::to_public_key(&key).unwrap(),
            payload: payload_for(&excess, proof),
        });
        keys.push(key);
    }
    (keys, hops)
}

fn demo_commit() -> secp::Commitment {
    let blind = secp::insecure_rand_secret().unwrap();
    secp::commit(100, &blind).unwrap()
}

#[test]
fn create_onion_rejects_empty_route() {
    let session = secp::insecure_rand_secret().unwrap();
    let err = create_onion(&demo_commit(), &session, &Vec::new()).unwrap_err();
    assert_eq!(err, ErrorKind::InvalidRoute);
}

#[test]
fn create_onion_rejects_invalid_excess() {
    let key = secp::insecure_rand_secret().unwrap();
    let hops = vec![Hop {
        pubkey: secp::to_public_key(&key).unwrap(),
        payload: Payload {
            routing_info: None,
            excess: SecretKey { bytes: vec![0u8; 32] },
            rangeproof: None,
        },
    }];
    let session = secp::insecure_rand_secret().unwrap();
    let err = create_onion(&demo_commit(), &session, &hops).unwrap_err();
    assert_eq!(err, ErrorKind::CryptoError);
}

#[test]
fn layer_count_decreases_by_one_per_peel() {
    let (keys, hops) = route(3);
    let session = secp::insecure_rand_secret().unwrap();
    let mut onion = create_onion(&demo_commit(), &session, &hops).unwrap();
    assert_eq!(onion.enc_payloads.len(), 3);
    for (i, key) in keys.iter().enumerate() {
        let (_payload, rest) = peel_layer(&onion, key).unwrap();
        assert_eq!(rest.enc_payloads.len(), 3 - i - 1);
        onion = rest;
    }
    assert_eq!(onion.enc_payloads.len(), 0);
}

#[test]
fn commit_is_anchored_across_every_peel() {
    let (keys, hops) = route(4);
    let session = secp::insecure_rand_secret().unwrap();
    let commitment = demo_commit();
    let mut onion = create_onion(&commitment, &session, &hops).unwrap();
    assert_eq!(onion.commit.bytes, commitment.bytes);
    for key in keys.iter() {
        let (_payload, rest) = peel_layer(&onion, key).unwrap();
        assert_eq!(rest.commit.bytes, commitment.bytes);
        onion = rest;
    }
}

#[test]
fn peeling_in_order_recovers_each_payload() {
    let (keys, hops) = route(3);
    let session = secp::insecure_rand_secret().unwrap();
    let expected: Vec<Vec<u8>> =
        hops.iter().map(|h| serialize_payload(&h.payload).unwrap()).collect();
    let mut onion = create_onion(&demo_commit(), &session, &hops).unwrap();
    // each slot really is encrypted: no plaintext payload is visible
    for (blob, plain) in onion.enc_payloads.iter().zip(expected.iter()) {
        assert_ne!(blob, plain);
    }
    for (i, key) in keys.iter().enumerate() {
        let before = onion.ephemeral_pubkey.bytes.clone();
        let (payload, rest) = peel_layer(&onion, key).unwrap();
        assert_eq!(serialize_payload(&payload).unwrap(), expected[i]);
        // the ephemeral key rotates on every peel
        assert_ne!(rest.ephemeral_pubkey.bytes, before);
        onion = rest;
    }
    assert_eq!(onion.enc_payloads.len(), 0);
}

#[test]
fn wrong_key_is_rejected() {
    let (_keys, hops) = route(2);
    let session = secp::insecure_rand_secret().unwrap();
    let onion = create_onion(&demo_commit(), &session, &hops).unwrap();
    let stranger = secp::insecure_rand_secret().unwrap();
    let err = peel_layer(&onion, &stranger).unwrap_err();
    assert_eq!(err, ErrorKind::InvalidPayload);
    // the second hop's key cannot open the first layer either
    let (keys2, hops2) = route(2);
    let onion2 = create_onion(&demo_commit(), &session, &hops2).unwrap();
    let err2 = peel_layer(&onion2, &keys2[1]).unwrap_err();
    assert_eq!(err2, ErrorKind::InvalidPayload);
}

#[test]
fn terminal_onion_cannot_be_peeled() {
    let key = secp::insecure_rand_secret().unwrap();
    let onion = Onion {
        ephemeral_pubkey: secp::to_public_key(&key).unwrap(),
        commit: demo_commit(),
        enc_payloads: Vec::new(),
    };
    assert_eq!(peel_layer(&onion, &key).unwrap_err(), ErrorKind::InvalidPayload);
}

#[test]
fn swap_records_excess_and_forwards_remainder() {
    let (keys, hops) = route(2);
    let expected_excess = hops[0].payload.excess.bytes.clone();
    let session = secp::insecure_rand_secret().unwrap();
    let commitment = demo_commit();
    let onion = create_onion(&commitment, &session, &hops).unwrap();
    let req = SwapReq {
        onion,
        msg: vec![0u8, 1, 2, 3],
        comsig: secp::ComSignature { bytes: vec![0u8; 64] },
    };
    let submission = swap(&keys[0], &req).unwrap();
    assert_eq!(submission.excess.bytes, expected_excess);
    assert_eq!(submission.input_commit.bytes, commitment.bytes);
    assert_eq!(submission.onion.enc_payloads.len(), 1);
    assert_eq!(submission.onion.commit.bytes, commitment.bytes);
}

#[test]
fn duplicate_route_keys_are_permitted() {
    let key = secp::insecure_rand_secret().unwrap();
    let pubkey = secp::to_public_key(&key).unwrap();
    let hops: Vec<Hop> = (0..2)
        .map(|_| Hop {
            pubkey: secp::PublicKey { bytes: pubkey.bytes.clone() },
            payload: payload_for(&secp::insecure_rand_secret().unwrap(), None),
        })
        .collect();
    let session = secp::insecure_rand_secret().unwrap();
    let onion = create_onion(&demo_commit(), &session, &hops).unwrap();
    let (_p0, rest) = peel_layer(&onion, &key).unwrap();
    let (_p1, done) = peel_layer(&rest, &key).unwrap();
    assert_eq!(done.enc_payloads.len(), 0);
}

#[test]
fn routing_info_survives_the_trip() {
    let key = secp::insecure_rand_secret().unwrap();
    let hops = vec![Hop {
        pubkey: secp::to_public_key(&key).unwrap(),
        payload: Payload {
            routing_info: Some(RoutingInfo {}),
            excess: secp::insecure_rand_secret().unwrap(),
            rangeproof: None,
        },
    }];
    let session = secp::insecure_rand_secret().unwrap();
    let onion = create_onion(&demo_commit(), &session, &hops).unwrap();
    let (payload, _rest) = peel_layer(&onion, &key).unwrap();
    assert!(payload.routing_info.is_some());
}
