//! The frame codec over secrets from a real handshake: round trips, MAC
//! chain agreement, ordering sensitivity.

use ecies::crypto::generate_keypair;
use ecies::Advance;
use ecies::ECIESEerror;
use ecies::HandshakeSession;
use ecies::Secrets;

fn run_handshake() -> (Secrets, Secrets) {
    let (ssk_i, _spk_i) = generate_keypair();
    let (ssk_r, spk_r) = generate_keypair();
    let mut initiator = HandshakeSession::new_initiator(ssk_i, spk_r).unwrap();
    let mut recipient = HandshakeSession::new_recipient(ssk_r).unwrap();
    let auth = initiator.auth_message().unwrap();
    let (ack, secrets_r) = match recipient.advance(&auth).unwrap() {
        Advance::Established { reply, secrets } => (reply.unwrap(), secrets),
        Advance::NeedMore => panic!("recipient should have established"),
    };
    let secrets_i = match initiator.advance(&ack).unwrap() {
        Advance::Established { secrets, .. } => secrets,
        Advance::NeedMore => panic!("initiator should have established"),
    };
    (secrets_i, secrets_r)
}

#[test]
fn frame_roundtrip() {
    let (mut writer, mut reader) = run_handshake();
    let payload: Vec<u8> = b"application data".to_vec();
    let frame = writer.write_frame(&payload);
    let out = reader.read_frame(&frame).unwrap();
    assert_eq!(out, payload);
}

#[test]
fn frame_roundtrip_empty_payload() {
    let (mut writer, mut reader) = run_handshake();
    let payload: Vec<u8> = Vec::new();
    let frame = writer.write_frame(&payload);
    let out = reader.read_frame(&frame).unwrap();
    assert_eq!(out, payload);
}

#[test]
fn frame_roundtrip_several_kb() {
    let (mut writer, mut reader) = run_handshake();
    let payload: Vec<u8> = (0..5000u32).map(|i| (i % 241) as u8).collect();
    let frame = writer.write_frame(&payload);
    let out = reader.read_frame(&frame).unwrap();
    assert_eq!(out, payload);
}

#[test]
fn mac_chains_agree_after_many_frames() {
    let (mut writer, mut reader) = run_handshake();
    for n in 0..8u32 {
        let payload: Vec<u8> = (0..(n * 37)).map(|i| (i % 199) as u8).collect();
        let frame = writer.write_frame(&payload);
        let out = reader.read_frame(&frame).unwrap();
        assert_eq!(out, payload);
    }
    assert_eq!(writer.egress_mac.absorbed, reader.ingress_mac.absorbed);
}

#[test]
fn out_of_order_frame_fails_tag_check() {
    let (mut writer, mut reader) = run_handshake();
    let p1: Vec<u8> = b"frame one".to_vec();
    let p2: Vec<u8> = b"frame two".to_vec();
    let _f1 = writer.write_frame(&p1);
    let f2 = writer.write_frame(&p2);
    // frame 2 delivered first: the chained MAC cannot match
    assert_eq!(reader.read_frame(&f2).unwrap_err(), ECIESEerror::TagCheckFailed);
}

#[test]
fn dropped_frame_desynchronizes() {
    let (mut writer, mut reader) = run_handshake();
    let p1: Vec<u8> = b"first".to_vec();
    let p2: Vec<u8> = b"second".to_vec();
    let f1 = writer.write_frame(&p1);
    let f2 = writer.write_frame(&p2);
    assert_eq!(reader.read_frame(&f1).unwrap(), p1);
    // replaying frame 1 in place of frame 2 fails too
    assert_eq!(reader.read_frame(&f1).unwrap_err(), ECIESEerror::TagCheckFailed);
    let _ = f2;
}

#[test]
fn truncated_frame_is_transport_error() {
    let (mut _writer, mut reader) = run_handshake();
    let short: Vec<u8> = vec![0u8; 10];
    assert_eq!(reader.read_frame(&short).unwrap_err(), ECIESEerror::TransportError);
}

#[test]
fn tampered_frame_body_fails_tag_check() {
    let (mut writer, mut reader) = run_handshake();
    let payload: Vec<u8> = b"do not touch".to_vec();
    let mut frame = writer.write_frame(&payload);
    let n = frame.len();
    frame[n - 20] ^= 0x40;
    assert_eq!(reader.read_frame(&frame).unwrap_err(), ECIESEerror::TagCheckFailed);
}
