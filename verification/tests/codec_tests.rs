use mwixnet::error::ErrorKind;
use mwixnet::secp::{RangeProof, SecretKey, MAX_PROOF_SIZE};
use mwixnet::ser;
use mwixnet::types::{deserialize_payload, serialize_payload, Payload, RoutingInfo};

fn sk(byte: u8) -> SecretKey {
    SecretKey { bytes: vec![byte; 32] }
}

#[test]
fn payload_roundtrip_plain() {
    let p = Payload { routing_info: None, excess: sk(7), rangeproof: None };
    let bytes = serialize_payload(&p).unwrap();
    assert_eq!(bytes.len(), 34);
    assert_eq!(bytes[0], 0);
    assert_eq!(bytes[33], 0);
    let q = deserialize_payload(&bytes).unwrap();
    assert!(q.routing_info.is_none());
    assert_eq!(q.excess.bytes, p.excess.bytes);
    assert!(q.rangeproof.is_none());
}

#[test]
fn payload_roundtrip_routing_and_min_proof() {
    let p = Payload {
        routing_info: Some(RoutingInfo {}),
        excess: sk(9),
        rangeproof: Some(RangeProof { bytes: Vec::new() }),
    };
    let bytes = serialize_payload(&p).unwrap();
    assert_eq!(bytes.len(), 42);
    assert_eq!(bytes[0], 1);
    assert_eq!(bytes[33], 1);
    let q = deserialize_payload(&bytes).unwrap();
    assert!(q.routing_info.is_some());
    assert_eq!(q.excess.bytes, p.excess.bytes);
    assert_eq!(q.rangeproof.unwrap().bytes, Vec::<u8>::new());
}

#[test]
fn payload_roundtrip_max_proof() {
    let proof: Vec<u8> = (0..MAX_PROOF_SIZE).map(|i| (i % 251) as u8).collect();
    let p = Payload {
        routing_info: None,
        excess: sk(1),
        rangeproof: Some(RangeProof { bytes: proof.clone() }),
    };
    let bytes = serialize_payload(&p).unwrap();
    assert_eq!(bytes.len(), 42 + MAX_PROOF_SIZE);
    let q = deserialize_payload(&bytes).unwrap();
    assert_eq!(q.rangeproof.unwrap().bytes, proof);
}

#[test]
fn payload_decode_rejects_short_and_bad_flags() {
    assert_eq!(deserialize_payload(&vec![]).unwrap_err(), ErrorKind::CorruptedData);
    assert_eq!(deserialize_payload(&vec![0u8; 33]).unwrap_err(), ErrorKind::CorruptedData);
    let mut bad_flag = vec![0u8; 34];
    bad_flag[0] = 2;
    assert_eq!(deserialize_payload(&bad_flag).unwrap_err(), ErrorKind::CorruptedData);
    let mut bad_proof_flag = vec![0u8; 34];
    bad_proof_flag[33] = 3;
    assert_eq!(deserialize_payload(&bad_proof_flag).unwrap_err(), ErrorKind::CorruptedData);
    // a trailing byte breaks the exact encoding
    let p = Payload { routing_info: None, excess: sk(4), rangeproof: None };
    let mut bytes = serialize_payload(&p).unwrap();
    bytes.push(0);
    assert_eq!(deserialize_payload(&bytes).unwrap_err(), ErrorKind::CorruptedData);
}

#[test]
fn payload_decode_rejects_invalid_excess_scalar() {
    // an all-zero excess is not a valid scalar: decoding must reject it
    // rather than hand back a payload no primitive will accept
    let zero_excess = vec![0u8; 34];
    assert_eq!(deserialize_payload(&zero_excess).unwrap_err(), ErrorKind::CorruptedData);
    // an excess at or above the curve order is rejected too
    let mut huge = vec![0u8; 34];
    for b in huge[1..33].iter_mut() {
        *b = 0xFF;
    }
    assert_eq!(deserialize_payload(&huge).unwrap_err(), ErrorKind::CorruptedData);
}

#[test]
fn secret_key_read_rejects_invalid_scalar() {
    let data = vec![0u8; 32];
    let mut pos: usize = 0;
    assert_eq!(
        mwixnet::secp::read_secret_key(&data, &mut pos).unwrap_err(),
        ErrorKind::CorruptedData
    );
    assert_eq!(pos, 0);
}

#[test]
fn serialize_rejects_malformed_payload() {
    let p = Payload {
        routing_info: None,
        excess: SecretKey { bytes: vec![1u8; 31] },
        rangeproof: None,
    };
    assert_eq!(serialize_payload(&p).unwrap_err(), ErrorKind::CorruptedData);
    let q = Payload {
        routing_info: None,
        excess: sk(1),
        rangeproof: Some(RangeProof { bytes: vec![0u8; MAX_PROOF_SIZE + 1] }),
    };
    assert_eq!(serialize_payload(&q).unwrap_err(), ErrorKind::CorruptedData);
}

#[test]
fn u64_wire_format_is_big_endian() {
    let mut buf: Vec<u8> = Vec::new();
    ser::write_u64(&mut buf, 0x0102030405060708);
    assert_eq!(buf, vec![1, 2, 3, 4, 5, 6, 7, 8]);
    let mut pos: usize = 0;
    assert_eq!(ser::read_u64(&buf, &mut pos).unwrap(), 0x0102030405060708);
    assert_eq!(pos, 8);
}

#[test]
fn read_fixed_bytes_is_exact() {
    let data = vec![10u8, 11, 12, 13];
    let mut pos: usize = 1;
    let got = ser::read_fixed_bytes(&data, &mut pos, 2).unwrap();
    assert_eq!(got, vec![11, 12]);
    assert_eq!(pos, 3);
    assert_eq!(ser::read_fixed_bytes(&data, &mut pos, 2).unwrap_err(), ErrorKind::CorruptedData);
}

#[test]
fn range_proof_read_clamps_declared_length() {
    // declared length far beyond the maximum: exactly MAX_PROOF_SIZE bytes
    // are read, never more
    let mut buf: Vec<u8> = Vec::new();
    ser::write_u64(&mut buf, u64::MAX);
    buf.extend(std::iter::repeat(5u8).take(MAX_PROOF_SIZE));
    let mut pos: usize = 0;
    let proof = mwixnet::secp::read_range_proof(&buf, &mut pos).unwrap();
    assert_eq!(proof.bytes.len(), MAX_PROOF_SIZE);
    assert_eq!(pos, 8 + MAX_PROOF_SIZE);
    // the same declared length over a shorter buffer is corrupt
    let mut short: Vec<u8> = Vec::new();
    ser::write_u64(&mut short, u64::MAX);
    short.extend(std::iter::repeat(5u8).take(MAX_PROOF_SIZE - 1));
    let mut pos2: usize = 0;
    assert_eq!(
        mwixnet::secp::read_range_proof(&short, &mut pos2).unwrap_err(),
        ErrorKind::CorruptedData
    );
}

#[test]
fn public_key_read_rejects_invalid_point() {
    let data = vec![0u8; 33];
    let mut pos: usize = 0;
    assert_eq!(
        mwixnet::secp::read_public_key(&data, &mut pos).unwrap_err(),
        ErrorKind::CorruptedData
    );
}

#[test]
fn fixed_size_fields_roundtrip() {
    let sig = mwixnet::secp::Signature { bytes: (0..64).map(|i| i as u8).collect() };
    let commit = mwixnet::secp::Commitment { bytes: (0..33).map(|i| i as u8).collect() };
    let key = sk(3);
    let pubkey =
        mwixnet::secp::to_public_key(&mwixnet::secp::insecure_rand_secret().unwrap()).unwrap();
    let mut buf: Vec<u8> = Vec::new();
    mwixnet::secp::write_signature(&mut buf, &sig);
    mwixnet::secp::write_commitment(&mut buf, &commit);
    mwixnet::secp::write_secret_key(&mut buf, &key);
    mwixnet::secp::write_public_key(&mut buf, &pubkey);
    assert_eq!(buf.len(), 64 + 33 + 32 + 33);
    let mut pos: usize = 0;
    assert_eq!(mwixnet::secp::read_signature(&buf, &mut pos).unwrap().bytes, sig.bytes);
    assert_eq!(mwixnet::secp::read_commitment(&buf, &mut pos).unwrap().bytes, commit.bytes);
    assert_eq!(mwixnet::secp::read_secret_key(&buf, &mut pos).unwrap().bytes, key.bytes);
    assert_eq!(mwixnet::secp::read_public_key(&buf, &mut pos).unwrap().bytes, pubkey.bytes);
    assert_eq!(pos, buf.len());
}
