//! The primitives checked against the underlying crates directly: the key
//! derivation against SHA-256, the running MAC against Keccak-256 and AES,
//! the stream cipher against AES, and the curve operations against each
//! other.

use aes::cipher::BlockCipherEncrypt;
use aes::cipher::KeyInit;
use sha2::Digest;

use ecies::bytes::ct_eq;
use ecies::bytes::xor_bytes;
use ecies::cipher::CtrCipher;
use ecies::crypto::derive_public;
use ecies::crypto::ecdh;
use ecies::crypto::generate_keypair;
use ecies::crypto::recover;
use ecies::crypto::sign_recoverable;
use ecies::fields::encode_fields;
use ecies::fields::parse_fields;
use ecies::kdf::expand;
use ecies::MAC;

#[test]
fn kdf_is_deterministic() {
    let secret: Vec<u8> = vec![5u8; 32];
    let ctx: Vec<u8> = vec![6u8; 7];
    let a = expand(&secret, &ctx, 100);
    let b = expand(&secret, &ctx, 100);
    assert_eq!(a, b);
    assert_eq!(a.len(), 100);
}

#[test]
fn kdf_matches_counter_mode_hash_at_truncation_boundary() {
    // 40 bytes: one full hash block plus a truncated second block.
    let secret: Vec<u8> = vec![1u8; 32];
    let ctx: Vec<u8> = vec![2u8, 3u8, 4u8];
    let out = expand(&secret, &ctx, 40);
    let mut input1: Vec<u8> = vec![0, 0, 0, 1];
    input1.extend_from_slice(&secret);
    input1.extend_from_slice(&ctx);
    let b1 = sha2::Sha256::digest(&input1);
    let mut input2: Vec<u8> = vec![0, 0, 0, 2];
    input2.extend_from_slice(&secret);
    input2.extend_from_slice(&ctx);
    let b2 = sha2::Sha256::digest(&input2);
    let mut expected: Vec<u8> = b1.as_slice().to_vec();
    expected.extend_from_slice(&b2.as_slice()[..8]);
    assert_eq!(out, expected);
}

#[test]
fn kdf_empty_context() {
    let secret: Vec<u8> = vec![9u8; 32];
    let ctx: Vec<u8> = Vec::new();
    let out = expand(&secret, &ctx, 32);
    let mut input: Vec<u8> = vec![0, 0, 0, 1];
    input.extend_from_slice(&secret);
    let b = sha2::Sha256::digest(&input);
    assert_eq!(out, b.as_slice().to_vec());
}

#[test]
fn mac_digest_matches_keccak() {
    let mut mac = MAC::new(vec![0u8; 32]);
    mac.update(&vec![1u8, 2, 3]);
    mac.update(&vec![4u8, 5]);
    let d = mac.digest();
    let expected = <sha3::Keccak256 as sha3::Digest>::digest(&[1u8, 2, 3, 4, 5]);
    assert_eq!(d, expected.as_slice()[..16].to_vec());
}

#[test]
fn mac_update_header_matches_aes_chain() {
    let key: Vec<u8> = (0..32u8).collect();
    let block: Vec<u8> = (100..116u8).collect();
    let mut mac = MAC::new(key.clone());
    let tag = mac.update_header(&block);
    // recompute: encrypt the digest of the empty accumulator, XOR the block,
    // absorb, digest
    let d0 = <sha3::Keccak256 as sha3::Digest>::digest(&[] as &[u8]);
    let c = aes::Aes256::new(aes::cipher::Array::from_slice(&key));
    let mut e: aes::Block = aes::cipher::Array::clone_from_slice(&d0.as_slice()[..16]);
    c.encrypt_block(&mut e);
    let absorbed: Vec<u8> = e.as_slice().iter().zip(block.iter()).map(|(a, b)| a ^ b).collect();
    let expected = <sha3::Keccak256 as sha3::Digest>::digest(&absorbed);
    assert_eq!(tag, expected.as_slice()[..16].to_vec());
    assert_eq!(mac.absorbed, absorbed);
}

#[test]
fn ctr_cipher_matches_aes_256() {
    let key: Vec<u8> = (0..32u8).collect();
    let mut cipher = CtrCipher::new_zero(key.clone());
    let zeros: Vec<u8> = vec![0u8; 32];
    let ks = cipher.apply(&zeros);
    // XOR with zeros exposes the keystream: AES of counter blocks 0 and 1
    let c = aes::Aes256::new(aes::cipher::Array::from_slice(&key));
    let mut b0: aes::Block = aes::cipher::Array::clone_from_slice(&[0u8; 16]);
    c.encrypt_block(&mut b0);
    let mut ctr1 = [0u8; 16];
    ctr1[15] = 1;
    let mut b1: aes::Block = aes::cipher::Array::clone_from_slice(&ctr1);
    c.encrypt_block(&mut b1);
    assert_eq!(&ks[..16], b0.as_slice());
    assert_eq!(&ks[16..], b1.as_slice());
}

#[test]
fn ctr_cipher_roundtrip_with_iv() {
    let key: Vec<u8> = vec![7u8; 16];
    let iv: Vec<u8> = (200..216u8).collect();
    let data: Vec<u8> = (0..100u8).collect();
    let mut enc = CtrCipher::new(key.clone(), &iv);
    let ct = enc.apply(&data);
    let mut dec = CtrCipher::new(key, &iv);
    let pt = dec.apply(&ct);
    assert_eq!(pt, data);
    assert_ne!(ct, data);
}

#[test]
fn ecdh_agrees_both_ways() {
    let (sk_a, pk_a) = generate_keypair();
    let (sk_b, pk_b) = generate_keypair();
    let s1 = ecdh(&pk_b, &sk_a).unwrap();
    let s2 = ecdh(&pk_a, &sk_b).unwrap();
    assert_eq!(s1, s2);
    assert_eq!(s1.len(), 32);
}

#[test]
fn ecdh_rejects_invalid_point() {
    let (sk, _pk) = generate_keypair();
    let bad = vec![0u8; 64];
    assert!(ecdh(&bad, &sk).is_none());
}

#[test]
fn recover_returns_signer_key() {
    let (sk, pk) = generate_keypair();
    let msg: Vec<u8> = vec![42u8; 32];
    let sig = sign_recoverable(&msg, &sk).unwrap();
    assert_eq!(sig.len(), 65);
    let recovered = recover(&msg, &sig).unwrap();
    assert_eq!(recovered, pk);
}

#[test]
fn derive_public_matches_keypair() {
    let (sk, pk) = generate_keypair();
    assert_eq!(derive_public(&sk).unwrap(), pk);
}

#[test]
fn fields_roundtrip() {
    let fields: Vec<Vec<u8>> = vec![vec![1, 2, 3], Vec::new(), vec![9u8; 300]];
    let encoded = encode_fields(&fields);
    let parsed = parse_fields(&encoded).unwrap();
    assert_eq!(parsed, fields);
}

#[test]
fn fields_malformed_rejected() {
    // length prefix promises more bytes than remain
    assert!(parse_fields(&vec![0u8, 5, 1]).is_none());
    // truncated prefix
    assert!(parse_fields(&vec![7u8]).is_none());
}

#[test]
fn constant_time_compare() {
    let a: Vec<u8> = vec![1, 2, 3];
    let b: Vec<u8> = vec![1, 2, 3];
    let c: Vec<u8> = vec![1, 2, 4];
    assert!(ct_eq(&a, &b));
    assert!(!ct_eq(&a, &c));
}

#[test]
fn xor_is_involutive() {
    let a: Vec<u8> = (0..64u8).collect();
    let mask: Vec<u8> = (64..128u8).collect();
    let x = xor_bytes(&a, &mask);
    assert_eq!(xor_bytes(&x, &mask), a);
}
