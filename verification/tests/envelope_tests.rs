//! Envelope crypto: seal/open round trips and tamper detection.

use ecies::crypto::generate_keypair;
use ecies::envelope::open;
use ecies::envelope::seal;
use ecies::ECIESEerror;

#[test]
fn seal_open_roundtrip() {
    let (sk, pk) = generate_keypair();
    let plaintext: Vec<u8> = b"a secret message for the recipient".to_vec();
    let env = seal(&pk, &plaintext).unwrap();
    let out = open(&sk, &env).unwrap();
    assert_eq!(out, plaintext);
}

#[test]
fn seal_open_roundtrip_empty() {
    let (sk, pk) = generate_keypair();
    let plaintext: Vec<u8> = Vec::new();
    let env = seal(&pk, &plaintext).unwrap();
    let out = open(&sk, &env).unwrap();
    assert_eq!(out, plaintext);
}

#[test]
fn seal_open_roundtrip_large() {
    let (sk, pk) = generate_keypair();
    let plaintext: Vec<u8> = (0..4096u32).map(|i| (i % 251) as u8).collect();
    let env = seal(&pk, &plaintext).unwrap();
    let out = open(&sk, &env).unwrap();
    assert_eq!(out, plaintext);
}

#[test]
fn tampered_ciphertext_fails_tag_check() {
    let (sk, pk) = generate_keypair();
    let plaintext: Vec<u8> = b"integrity protected".to_vec();
    for bit in 0..8 {
        let mut env = seal(&pk, &plaintext).unwrap();
        env.ciphertext[3] ^= 1u8 << bit;
        assert_eq!(open(&sk, &env).unwrap_err(), ECIESEerror::TagCheckFailed);
    }
}

#[test]
fn tampered_tag_fails_tag_check() {
    let (sk, pk) = generate_keypair();
    let plaintext: Vec<u8> = b"integrity protected".to_vec();
    for pos in 0..16 {
        for bit in 0..8 {
            let mut env = seal(&pk, &plaintext).unwrap();
            env.tag[pos] ^= 1u8 << bit;
            assert_eq!(open(&sk, &env).unwrap_err(), ECIESEerror::TagCheckFailed);
        }
    }
}

#[test]
fn seal_to_invalid_point_fails() {
    let bad_pk = vec![0u8; 64];
    let plaintext: Vec<u8> = b"hello".to_vec();
    assert_eq!(seal(&bad_pk, &plaintext).unwrap_err(), ECIESEerror::KeyAgreementError);
}

#[test]
fn error_descriptions() {
    assert_eq!(ECIESEerror::TagCheckFailed.describe(), "tag check failure");
    assert_eq!(ECIESEerror::InvalidAuthData.describe(), "invalid auth data");
    assert_eq!(ECIESEerror::InvalidAckData.describe(), "invalid ack data");
    assert_eq!(ECIESEerror::KeyAgreementError.describe(), "key agreement error");
    assert_eq!(ECIESEerror::TransportError.describe(), "IO error");
}
