//! The two-party handshake run end to end, and its failure modes.

use ecies::bytes::be2_of;
use ecies::bytes::xor_bytes;
use ecies::crypto::ecdh;
use ecies::crypto::generate_keypair;
use ecies::crypto::random_bytes;
use ecies::crypto::sign_recoverable;
use ecies::envelope::seal;
use ecies::fields::encode_fields;
use ecies::Advance;
use ecies::ECIESEerror;
use ecies::HandshakeSession;
use ecies::Secrets;

fn run_handshake() -> (Secrets, Secrets) {
    let (ssk_i, _spk_i) = generate_keypair();
    let (ssk_r, spk_r) = generate_keypair();
    let mut initiator = HandshakeSession::new_initiator(ssk_i, spk_r).unwrap();
    let mut recipient = HandshakeSession::new_recipient(ssk_r).unwrap();
    let auth = initiator.auth_message().unwrap();
    let (ack, secrets_r) = match recipient.advance(&auth).unwrap() {
        Advance::Established { reply, secrets } => (reply.unwrap(), secrets),
        Advance::NeedMore => panic!("recipient should have established"),
    };
    let secrets_i = match initiator.advance(&ack).unwrap() {
        Advance::Established { reply, secrets } => {
            assert!(reply.is_none());
            secrets
        }
        Advance::NeedMore => panic!("initiator should have established"),
    };
    (secrets_i, secrets_r)
}

#[test]
fn handshake_symmetry() {
    let (secrets_i, secrets_r) = run_handshake();
    assert_eq!(secrets_i.aes_secret, secrets_r.aes_secret);
    assert_eq!(secrets_i.mac_secret, secrets_r.mac_secret);
    assert_eq!(secrets_i.egress_mac.absorbed, secrets_r.ingress_mac.absorbed);
    assert_eq!(secrets_i.ingress_mac.absorbed, secrets_r.egress_mac.absorbed);
}

#[test]
fn handshake_learns_initiator_identity() {
    let (ssk_i, spk_i) = generate_keypair();
    let (ssk_r, spk_r) = generate_keypair();
    let mut initiator = HandshakeSession::new_initiator(ssk_i, spk_r).unwrap();
    let mut recipient = HandshakeSession::new_recipient(ssk_r).unwrap();
    let auth = initiator.auth_message().unwrap();
    match recipient.advance(&auth).unwrap() {
        Advance::Established { .. } => {}
        Advance::NeedMore => panic!("recipient should have established"),
    }
    assert_eq!(recipient.remote_static_pk, spk_i);
}

#[test]
fn handshake_in_chunks_needs_more() {
    let (ssk_i, _spk_i) = generate_keypair();
    let (ssk_r, spk_r) = generate_keypair();
    let mut initiator = HandshakeSession::new_initiator(ssk_i, spk_r).unwrap();
    let mut recipient = HandshakeSession::new_recipient(ssk_r).unwrap();
    let auth = initiator.auth_message().unwrap();
    let first: Vec<u8> = auth[..10].to_vec();
    let rest: Vec<u8> = auth[10..].to_vec();
    assert!(matches!(recipient.advance(&first).unwrap(), Advance::NeedMore));
    assert!(matches!(recipient.advance(&rest).unwrap(), Advance::Established { .. }));
}

#[test]
fn auth_to_invalid_recipient_key_fails() {
    let (ssk_i, _spk_i) = generate_keypair();
    let bad_pk = vec![0u8; 64];
    let mut initiator = HandshakeSession::new_initiator(ssk_i, bad_pk).unwrap();
    assert_eq!(initiator.auth_message().unwrap_err(), ECIESEerror::KeyAgreementError);
}

#[test]
fn garbage_auth_fails_tag_check() {
    let (ssk_r, _spk_r) = generate_keypair();
    let mut recipient = HandshakeSession::new_recipient(ssk_r).unwrap();
    // A syntactically complete message whose envelope cannot be opened: a
    // valid-looking ephemeral key from a fresh pair, arbitrary IV/ct/tag.
    let (_esk, epk) = generate_keypair();
    let mut wire = be2_of(96 + 32);
    wire.extend_from_slice(&epk);
    wire.extend_from_slice(&[7u8; 16]);
    wire.extend_from_slice(&[8u8; 32]);
    wire.extend_from_slice(&[9u8; 16]);
    assert_eq!(recipient.advance(&wire).unwrap_err(), ECIESEerror::TagCheckFailed);
}

#[test]
fn undersized_auth_is_invalid() {
    let (ssk_r, _spk_r) = generate_keypair();
    let mut recipient = HandshakeSession::new_recipient(ssk_r).unwrap();
    let mut wire = be2_of(10);
    wire.extend_from_slice(&[0u8; 10]);
    assert_eq!(recipient.advance(&wire).unwrap_err(), ECIESEerror::InvalidAuthData);
}

/// Builds an auth message by hand, with the given field list sealed to the
/// recipient's static key.
fn handmade_auth(spk_r: &Vec<u8>, fields: &Vec<Vec<u8>>) -> Vec<u8> {
    let payload = encode_fields(fields);
    let env = seal(spk_r, &payload).unwrap();
    let mut wire = be2_of((96 + env.ciphertext.len()) as u16);
    wire.extend_from_slice(&env.ephemeral_public_key);
    wire.extend_from_slice(&env.iv);
    wire.extend_from_slice(&env.ciphertext);
    wire.extend_from_slice(&env.tag);
    wire
}

fn auth_fields(spk_r: &Vec<u8>) -> Vec<Vec<u8>> {
    let (isk, _ipk) = generate_keypair();
    let (esk, epk) = generate_keypair();
    let nonce = random_bytes(32);
    let x = ecdh(spk_r, &esk).unwrap();
    let msg = xor_bytes(&x, &nonce);
    let sig = sign_recoverable(&msg, &isk).unwrap();
    vec![sig, epk, nonce, vec![4u8]]
}

#[test]
fn auth_with_extra_trailing_fields_parses() {
    let (ssk_r, spk_r) = generate_keypair();
    let mut recipient = HandshakeSession::new_recipient(ssk_r).unwrap();
    let mut fields = auth_fields(&spk_r);
    fields.push(vec![1, 2, 3]);
    fields.push(Vec::new());
    let wire = handmade_auth(&spk_r, &fields);
    assert!(matches!(recipient.advance(&wire).unwrap(), Advance::Established { .. }));
}

#[test]
fn auth_missing_field_is_invalid() {
    let (ssk_r, spk_r) = generate_keypair();
    let mut recipient = HandshakeSession::new_recipient(ssk_r).unwrap();
    let mut fields = auth_fields(&spk_r);
    fields.truncate(3);
    let wire = handmade_auth(&spk_r, &fields);
    assert_eq!(recipient.advance(&wire).unwrap_err(), ECIESEerror::InvalidAuthData);
}

#[test]
fn auth_with_wrong_field_width_is_invalid() {
    let (ssk_r, spk_r) = generate_keypair();
    let mut recipient = HandshakeSession::new_recipient(ssk_r).unwrap();
    let mut fields = auth_fields(&spk_r);
    fields[2] = vec![0u8; 31];
    let wire = handmade_auth(&spk_r, &fields);
    assert_eq!(recipient.advance(&wire).unwrap_err(), ECIESEerror::InvalidAuthData);
}

#[test]
fn short_ack_is_invalid() {
    let (ssk_r, spk_r) = generate_keypair();
    // An ack sealed to the initiator's static key, so it opens, but holding
    // only two fields: rejected as structurally invalid.
    let (ssk_i, spk_i) = generate_keypair();
    let mut initiator = HandshakeSession::new_initiator(ssk_i, spk_r).unwrap();
    let _auth = initiator.auth_message().unwrap();
    let fields = vec![vec![0u8; 64], vec![0u8; 32]];
    let payload = encode_fields(&fields);
    let env = seal(&spk_i, &payload).unwrap();
    let mut wire = be2_of((96 + env.ciphertext.len()) as u16);
    wire.extend_from_slice(&env.ephemeral_public_key);
    wire.extend_from_slice(&env.iv);
    wire.extend_from_slice(&env.ciphertext);
    wire.extend_from_slice(&env.tag);
    assert_eq!(initiator.advance(&wire).unwrap_err(), ECIESEerror::InvalidAckData);
    let _ = ssk_r;
}
