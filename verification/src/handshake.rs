//! The two-party handshake: an initiator who knows the recipient's static
//! public key seals an auth message to it; the recipient learns the
//! initiator's identity from the auth signature, answers with a sealed ack,
//! and both sides derive the same session secrets from the ephemeral keys,
//! nonces and raw message transcripts.

use vstd::prelude::*;

use crate::bytes::append_bytes;
use crate::bytes::be_bytes;
use crate::bytes::be_val;
use crate::bytes::copy_bytes;
use crate::bytes::copy_range;
use crate::bytes::read_be2;
use crate::bytes::be2_of;
use crate::bytes::xor_bytes;
use crate::bytes::xor_seq;
use crate::cipher::CtrCipher;
use crate::crypto::derive_public;
use crate::crypto::ecdh;
use crate::crypto::ecdh_of;
use crate::crypto::generate_keypair;
use crate::crypto::keccak256;
use crate::crypto::keccak_of;
use crate::crypto::pubkey_of;
use crate::crypto::random_bytes;
use crate::crypto::recover;
use crate::crypto::recover_of;
use crate::crypto::sig_of;
use crate::crypto::sign_recoverable;
use crate::crypto::valid_pubkey;
use crate::crypto::valid_secret_key;
use crate::envelope::open;
use crate::envelope::open_model;
use crate::envelope::seal;
use crate::envelope::seal_model;
use crate::envelope::EciesEnvelope;
use crate::envelope::EnvelopeModel;
use crate::errors::ECIESEerror;
use crate::fields::deep_view;
use crate::fields::encode_fields;
use crate::fields::encode_fields_spec;
use crate::fields::parse_fields;
use crate::fields::parse_fields_spec;
use crate::frame::Secrets;
use crate::mac::MAC;
use crate::PROTOCOL_VERSION;

verus! {

/// Which side of the handshake a session drives.
#[derive(Clone, Copy, Debug, PartialEq, Eq, Structural)]
pub enum Role {
    /// Knows the recipient's static public key in advance and dials out.
    Initiator,
    /// Accepts the connection and learns the peer's identity from the auth
    /// signature.
    Recipient,
}

/// The other side of a role.
pub open spec fn peer_role(r: Role) -> Role {
    match r {
        Role::Initiator => Role::Recipient,
        Role::Recipient => Role::Initiator,
    }
}

/// The transcript nonce hash: the initiator hashes `remote ‖ local`, the
/// recipient `local ‖ remote` — each computes the other's view, so the two
/// sides agree.
pub open spec fn h_nonce_spec(role: Role, local_nonce: Seq<u8>, remote_nonce: Seq<u8>) -> Seq<
    u8,
> {
    match role {
        Role::Initiator => keccak_of(remote_nonce + local_nonce),
        Role::Recipient => keccak_of(local_nonce + remote_nonce),
    }
}

/// The spec image of derived secrets: cipher secret, MAC secret, egress MAC
/// seed bytes, ingress MAC seed bytes.
pub type SecretsModel = (Seq<u8>, Seq<u8>, Seq<u8>, Seq<u8>);

/// What one side derives: the cipher secret from the shared secret and the
/// nonce hash, the MAC secret chained on it, and each direction's MAC chain
/// seeded with `mac_secret XOR peer-nonce` and that direction's transcript.
pub open spec fn secrets_model(
    role: Role,
    shared: Seq<u8>,
    local_nonce: Seq<u8>,
    remote_nonce: Seq<u8>,
    sent: Seq<u8>,
    recv: Seq<u8>,
) -> SecretsModel {
    let aes = keccak_of(shared + h_nonce_spec(role, local_nonce, remote_nonce));
    let mac = keccak_of(shared + aes);
    (aes, mac, xor_seq(mac, remote_nonce) + sent, xor_seq(mac, local_nonce) + recv)
}

/// The same secrets with the two directions exchanged.
pub open spec fn swap_directions(m: SecretsModel) -> SecretsModel {
    (m.0, m.1, m.3, m.2)
}

/// Handshake symmetry: from one shared secret, the same nonces and the same
/// transcripts, the two roles derive identical secrets — the same cipher and
/// MAC secrets, and each other's MAC chains with ingress and egress swapped.
pub proof fn lemma_secrets_symmetry(
    shared: Seq<u8>,
    nonce_i: Seq<u8>,
    nonce_r: Seq<u8>,
    auth: Seq<u8>,
    ack: Seq<u8>,
)
    ensures
        secrets_model(Role::Recipient, shared, nonce_r, nonce_i, ack, auth) == swap_directions(
            secrets_model(Role::Initiator, shared, nonce_i, nonce_r, auth, ack),
        ),
{
    assert(h_nonce_spec(Role::Recipient, nonce_r, nonce_i) == keccak_of(nonce_r + nonce_i));
    assert(h_nonce_spec(Role::Initiator, nonce_i, nonce_r) == keccak_of(nonce_r + nonce_i));
}

/// Derives the session secrets once both ephemeral public keys, both nonces
/// and both transcripts are known.
///
/// The result is exactly `secrets_model` of the Diffie-Hellman secret of the
/// two ephemeral keys; both cipher directions start at counter zero. When
/// the remote key is the public half of some scalar — the peer running the
/// same exchange — the peer's derivation is the same secrets with the
/// directions swapped.
pub fn derive_secrets(
    role: Role,
    local_eph_sk: &Vec<u8>,
    remote_eph_pk: &Vec<u8>,
    local_nonce: &Vec<u8>,
    remote_nonce: &Vec<u8>,
    sent_transcript: &Vec<u8>,
    recv_transcript: &Vec<u8>,
) -> (r: Result<Secrets, ECIESEerror>)
    requires
        local_eph_sk.len() == 32,
        remote_eph_pk.len() == 64,
        local_nonce.len() == 32,
        remote_nonce.len() == 32,
    ensures
        (r is Ok) <==> (valid_secret_key(local_eph_sk@) && valid_pubkey(remote_eph_pk@)),
        r matches Err(e) ==> e == ECIESEerror::KeyAgreementError,
        r matches Ok(s) ==> {
            let m = secrets_model(
                role,
                ecdh_of(remote_eph_pk@, local_eph_sk@),
                local_nonce@,
                remote_nonce@,
                sent_transcript@,
                recv_transcript@,
            );
            &&& s.wf()
            &&& s.aes_secret@ == m.0
            &&& s.mac_secret@ == m.1
            &&& s.egress_mac.absorbed@ == m.2
            &&& s.ingress_mac.absorbed@ == m.3
            &&& s.egress_cipher.counter == 0
            &&& s.egress_cipher.pos == 0
            &&& s.ingress_cipher.counter == 0
            &&& s.ingress_cipher.pos == 0
        },
        r is Ok ==> forall|esk2: Seq<u8>|
            (remote_eph_pk@ == pubkey_of(esk2) && valid_secret_key(esk2)) ==> secrets_model(
                peer_role(role),
                ecdh_of(pubkey_of(local_eph_sk@), esk2),
                remote_nonce@,
                local_nonce@,
                recv_transcript@,
                sent_transcript@,
            ) == swap_directions(
                secrets_model(
                    role,
                    ecdh_of(remote_eph_pk@, local_eph_sk@),
                    local_nonce@,
                    remote_nonce@,
                    sent_transcript@,
                    recv_transcript@,
                ),
            ),
{
    let shared = match ecdh(remote_eph_pk, local_eph_sk) {
        Some(s) => s,
        None => {
            return Err(ECIESEerror::KeyAgreementError);
        }
    };
    let mut hin: Vec<u8> = Vec::new();
    match role {
        Role::Initiator => {
            append_bytes(&mut hin, remote_nonce);
            append_bytes(&mut hin, local_nonce);
        }
        Role::Recipient => {
            append_bytes(&mut hin, local_nonce);
            append_bytes(&mut hin, remote_nonce);
        }
    }
    let hn = keccak256(&hin);
    assert(hn@ == h_nonce_spec(role, local_nonce@, remote_nonce@));
    let mut ain: Vec<u8> = Vec::new();
    append_bytes(&mut ain, &shared);
    append_bytes(&mut ain, &hn);
    let aes = keccak256(&ain);
    let mut min: Vec<u8> = Vec::new();
    append_bytes(&mut min, &shared);
    append_bytes(&mut min, &aes);
    let mac = keccak256(&min);
    let egress_seed = xor_bytes(&mac, remote_nonce);
    let ingress_seed = xor_bytes(&mac, local_nonce);
    let mut egress_mac = MAC::new(copy_bytes(&mac));
    egress_mac.update(&egress_seed);
    egress_mac.update(sent_transcript);
    let mut ingress_mac = MAC::new(copy_bytes(&mac));
    ingress_mac.update(&ingress_seed);
    ingress_mac.update(recv_transcript);
    let egress_cipher = CtrCipher::new_zero(copy_bytes(&aes));
    let ingress_cipher = CtrCipher::new_zero(copy_bytes(&aes));
    let s = Secrets { aes_secret: aes, mac_secret: mac, egress_cipher, ingress_cipher, egress_mac, ingress_mac };
    proof {
        let m = secrets_model(
            role,
            ecdh_of(remote_eph_pk@, local_eph_sk@),
            local_nonce@,
            remote_nonce@,
            sent_transcript@,
            recv_transcript@,
        );
        assert(s.egress_mac.absorbed@ =~= m.2);
        assert(s.ingress_mac.absorbed@ =~= m.3);
        assert forall|esk2: Seq<u8>|
            remote_eph_pk@ == pubkey_of(esk2) && valid_secret_key(esk2) implies secrets_model(
            peer_role(role),
            ecdh_of(pubkey_of(local_eph_sk@), esk2),
            remote_nonce@,
            local_nonce@,
            recv_transcript@,
            sent_transcript@,
        ) == swap_directions(m) by {
            assert(ecdh_of(remote_eph_pk@, local_eph_sk@) == ecdh_of(
                pubkey_of(local_eph_sk@),
                esk2,
            ));
            assert(h_nonce_spec(peer_role(role), remote_nonce@, local_nonce@) == h_nonce_spec(
                role,
                local_nonce@,
                remote_nonce@,
            ));
        }
    }
    Ok(s)
}

/// Whether a buffered stream prefix holds one complete handshake message:
/// a two-byte big-endian body length, then the body.
pub open spec fn msg_ready(s: Seq<u8>) -> bool {
    s.len() >= 2 && s.len() >= 2 + be_val(s.take(2))
}

/// The length of the complete message at the front of the stream.
pub open spec fn msg_len(s: Seq<u8>) -> int {
    2 + be_val(s.take(2)) as int
}

/// The envelope a complete message carries: ephemeral key, IV, ciphertext,
/// tag, laid out after the length prefix.
pub open spec fn env_of_msg(m: Seq<u8>) -> EnvelopeModel {
    let body = m.skip(2);
    (
        body.take(64),
        body.subrange(64, 80),
        body.subrange(80, body.len() - 16),
        body.skip(body.len() - 16),
    )
}

/// A handshake message on the wire: the body length as two big-endian
/// bytes, then the envelope fields.
pub open spec fn wire_spec(e: EnvelopeModel) -> Seq<u8> {
    be_bytes((96 + e.2.len()) as nat, 2) + e.0 + e.1 + e.2 + e.3
}

/// The auth payload: the recoverable signature over `static-ECDH XOR
/// nonce`, the ephemeral public key, the nonce and the protocol version, as
/// an encoded field list.
pub open spec fn auth_payload_spec(
    static_sk: Seq<u8>,
    remote_static_pk: Seq<u8>,
    eph_pk: Seq<u8>,
    eph_sk: Seq<u8>,
    nonce: Seq<u8>,
) -> Seq<u8> {
    encode_fields_spec(
        seq![
            sig_of(xor_seq(ecdh_of(remote_static_pk, eph_sk), nonce), static_sk),
            eph_pk,
            nonce,
            seq![PROTOCOL_VERSION],
        ],
    )
}

/// The ack payload: the ephemeral public key, the nonce and the version.
pub open spec fn ack_payload_spec(eph_pk: Seq<u8>, nonce: Seq<u8>) -> Seq<u8> {
    encode_fields_spec(seq![eph_pk, nonce, seq![PROTOCOL_VERSION]])
}

/// The decrypted payload of a message (meaningful once it opens).
pub open spec fn open_payload(static_sk: Seq<u8>, m: Seq<u8>) -> Seq<u8> {
    open_model(static_sk, env_of_msg(m)).unwrap()
}

/// The parsed field list of an opened message.
pub open spec fn msg_fields(static_sk: Seq<u8>, m: Seq<u8>) -> Seq<Seq<u8>> {
    parse_fields_spec(open_payload(static_sk, m)).unwrap()
}

/// The peer identity an auth message proves: the key recovered from its
/// signature and the recomputed ephemeral shared secret.
pub open spec fn auth_peer_spec(static_sk: Seq<u8>, m: Seq<u8>) -> Seq<u8> {
    let fs = msg_fields(static_sk, m);
    recover_of(xor_seq(ecdh_of(fs[1], static_sk), fs[2]), fs[0]).unwrap()
}

/// Exactly which error processing an auth message raises, or `None` when it
/// is accepted: an undersized body, an invalid key, a tag mismatch, a
/// malformed or short field list, an invalid ephemeral key, an
/// unrecoverable signature — in that order of discovery.
pub open spec fn auth_error_spec(static_sk: Seq<u8>, m: Seq<u8>) -> Option<ECIESEerror> {
    if m.len() < 98 {
        Some(ECIESEerror::InvalidAuthData)
    } else {
        let env = env_of_msg(m);
        if !(valid_secret_key(static_sk) && valid_pubkey(env.0)) {
            Some(ECIESEerror::KeyAgreementError)
        } else if open_model(static_sk, env) is None {
            Some(ECIESEerror::TagCheckFailed)
        } else {
            match parse_fields_spec(open_payload(static_sk, m)) {
                None => Some(ECIESEerror::InvalidAuthData),
                Some(fs) => {
                    if !(fs.len() >= 4 && fs[0].len() == 65 && fs[1].len() == 64 && fs[2].len()
                        == 32 && fs[3].len() >= 1) {
                        Some(ECIESEerror::InvalidAuthData)
                    } else if !valid_pubkey(fs[1]) {
                        Some(ECIESEerror::KeyAgreementError)
                    } else if recover_of(
                        xor_seq(ecdh_of(fs[1], static_sk), fs[2]),
                        fs[0],
                    ) is None {
                        Some(ECIESEerror::InvalidAuthData)
                    } else {
                        None
                    }
                }
            }
        }
    }
}

/// Exactly which error processing an ack message raises, or `None` when it
/// is accepted.
pub open spec fn ack_error_spec(static_sk: Seq<u8>, m: Seq<u8>) -> Option<ECIESEerror> {
    if m.len() < 98 {
        Some(ECIESEerror::InvalidAckData)
    } else {
        let env = env_of_msg(m);
        if !(valid_secret_key(static_sk) && valid_pubkey(env.0)) {
            Some(ECIESEerror::KeyAgreementError)
        } else if open_model(static_sk, env) is None {
            Some(ECIESEerror::TagCheckFailed)
        } else {
            match parse_fields_spec(open_payload(static_sk, m)) {
                None => Some(ECIESEerror::InvalidAckData),
                Some(fs) => {
                    if !(fs.len() >= 3 && fs[0].len() == 64 && fs[1].len() == 32 && fs[2].len()
                        >= 1) {
                        Some(ECIESEerror::InvalidAckData)
                    } else if !valid_pubkey(fs[0]) {
                        Some(ECIESEerror::KeyAgreementError)
                    } else {
                        None
                    }
                }
            }
        }
    }
}

/// Whether derived secrets agree with a spec image: same secrets, same MAC
/// chains, ciphers at the start of their keystreams.
pub open spec fn secrets_match(s: Secrets, m: SecretsModel) -> bool {
    &&& s.wf()
    &&& s.aes_secret@ == m.0
    &&& s.mac_secret@ == m.1
    &&& s.egress_mac.absorbed@ == m.2
    &&& s.ingress_mac.absorbed@ == m.3
    &&& s.egress_cipher.counter == 0
    &&& s.egress_cipher.pos == 0
    &&& s.ingress_cipher.counter == 0
    &&& s.ingress_cipher.pos == 0
}

/// What an accepted auth message leaves a recipient with: secrets derived
/// from the message's ephemeral key and nonce with the ack as sent
/// transcript, and an ack reply sealed to the recovered peer identity.
pub open spec fn recipient_outcome_ok(
    static_sk: Seq<u8>,
    eph_sk: Seq<u8>,
    eph_pk: Seq<u8>,
    nonce: Seq<u8>,
    m: Seq<u8>,
    reply: Option<Vec<u8>>,
    secrets: Secrets,
) -> bool {
    let fs = msg_fields(static_sk, m);
    reply matches Some(rep) && {
        &&& secrets_match(
            secrets,
            secrets_model(Role::Recipient, ecdh_of(fs[1], eph_sk), nonce, fs[2], rep@, m),
        )
        &&& exists|esk2: Seq<u8>, iv2: Seq<u8>|
            valid_secret_key(esk2) && valid_pubkey(pubkey_of(esk2)) && iv2.len() == 16 && rep@
                == wire_spec(
                seal_model(
                    auth_peer_spec(static_sk, m),
                    ack_payload_spec(eph_pk, nonce),
                    esk2,
                    iv2,
                ),
            )
    }
}

/// What an accepted ack message leaves an initiator with: secrets derived
/// from the message's ephemeral key and nonce, with the recorded auth bytes
/// as sent transcript, and nothing to reply.
pub open spec fn initiator_outcome_ok(
    static_sk: Seq<u8>,
    eph_sk: Seq<u8>,
    nonce: Seq<u8>,
    sent: Seq<u8>,
    m: Seq<u8>,
    reply: Option<Vec<u8>>,
    secrets: Secrets,
) -> bool {
    let fs = msg_fields(static_sk, m);
    &&& reply is None
    &&& secrets_match(
        secrets,
        secrets_model(Role::Initiator, ecdh_of(fs[0], eph_sk), nonce, fs[1], sent, m),
    )
}

/// Unfolds the encoding of a four-field list.
proof fn lemma_encode4(a: Seq<u8>, b: Seq<u8>, c: Seq<u8>, d: Seq<u8>)
    ensures
        encode_fields_spec(seq![a, b, c, d]) == crate::fields::encode_field(a)
            + crate::fields::encode_field(b) + crate::fields::encode_field(c)
            + crate::fields::encode_field(d),
{
    let s4 = seq![a, b, c, d];
    assert(s4.drop_first() =~= seq![b, c, d]);
    assert(seq![b, c, d].drop_first() =~= seq![c, d]);
    assert(seq![c, d].drop_first() =~= seq![d]);
    assert(seq![d].drop_first() =~= Seq::<Seq<u8>>::empty());
    assert(encode_fields_spec(Seq::<Seq<u8>>::empty()) == Seq::<u8>::empty());
    assert(encode_fields_spec(seq![d]) == crate::fields::encode_field(d) + Seq::<u8>::empty());
    assert(encode_fields_spec(seq![c, d]) == crate::fields::encode_field(c)
        + encode_fields_spec(seq![d]));
    assert(encode_fields_spec(seq![b, c, d]) == crate::fields::encode_field(b)
        + encode_fields_spec(seq![c, d]));
    assert(encode_fields_spec(s4) == crate::fields::encode_field(a) + encode_fields_spec(
        seq![b, c, d],
    ));
    assert(encode_fields_spec(seq![a, b, c, d]) =~= crate::fields::encode_field(a)
        + crate::fields::encode_field(b) + crate::fields::encode_field(c)
        + crate::fields::encode_field(d));
}

/// Unfolds the encoding of a three-field list.
proof fn lemma_encode3(a: Seq<u8>, b: Seq<u8>, c: Seq<u8>)
    ensures
        encode_fields_spec(seq![a, b, c]) == crate::fields::encode_field(a)
            + crate::fields::encode_field(b) + crate::fields::encode_field(c),
{
    assert(seq![a, b, c].drop_first() =~= seq![b, c]);
    assert(seq![b, c].drop_first() =~= seq![c]);
    assert(seq![c].drop_first() =~= Seq::<Seq<u8>>::empty());
    assert(encode_fields_spec(Seq::<Seq<u8>>::empty()) == Seq::<u8>::empty());
    assert(encode_fields_spec(seq![c]) == crate::fields::encode_field(c) + Seq::<u8>::empty());
    assert(encode_fields_spec(seq![b, c]) == crate::fields::encode_field(b)
        + encode_fields_spec(seq![c]));
    assert(encode_fields_spec(seq![a, b, c]) == crate::fields::encode_field(a)
        + encode_fields_spec(seq![b, c]));
    assert(encode_fields_spec(seq![a, b, c]) =~= crate::fields::encode_field(a)
        + crate::fields::encode_field(b) + crate::fields::encode_field(c));
}

/// Frames an envelope as one handshake message.
fn encode_message(env: &EciesEnvelope) -> (r: Vec<u8>)
    requires
        env.wf(),
        env.ciphertext.len() + 96 < 65536,
    ensures
        r@ == wire_spec(env.m()),
        msg_ready(r@),
        msg_len(r@) == r@.len(),
{
    let blen = 96 + env.ciphertext.len();
    let mut out = be2_of(blen as u16);
    append_bytes(&mut out, &env.ephemeral_public_key);
    append_bytes(&mut out, &env.iv);
    append_bytes(&mut out, &env.ciphertext);
    append_bytes(&mut out, &env.tag);
    proof {
        assert(out@ =~= wire_spec(env.m()));
        assert(out@.take(2) =~= be_bytes(blen as nat, 2));
        crate::bytes::lemma_be_val_be_bytes(blen as nat, 2);
        assert(crate::bytes::pow256(2) == 65536) by {
            assert(crate::bytes::pow256(0) == 1);
            assert(crate::bytes::pow256(1) == 256);
        };
        vstd::arithmetic::div_mod::lemma_small_mod(blen as nat, 65536);
        assert(be_val(out@.take(2)) == blen);
    }
    out
}

/// Where a handshake stands.
#[derive(Clone, Copy, Debug, PartialEq, Eq, Structural)]
pub enum HsState {
    /// Created; the initiator has not built its auth yet.
    New,
    /// The initiator has built its auth for transmission and awaits the
    /// ack.
    AuthSent,
    /// The recipient awaits the auth; on processing it, the ack is built,
    /// handed back for transmission, and the session establishes in the
    /// same step.
    AwaitingAuth,
    /// Secrets are derived; the session is done.
    Established,
    /// A terminal failure; the session must be discarded.
    Failed,
}

/// What feeding bytes to a session produced.
#[derive(Debug)]
pub enum Advance {
    /// The message is still incomplete; feed more bytes.
    NeedMore,
    /// The handshake completed: the secrets, and — for a recipient — the
    /// ack message to transmit.
    Established {
        /// The message to send back, if this side owes one.
        reply: Option<Vec<u8>>,
        /// The negotiated session secrets.
        secrets: Secrets,
    },
}

/// One connection attempt's handshake state: consumed exactly once to
/// produce `Secrets`, never resumed.
pub struct HandshakeSession {
    /// Which side this session drives.
    pub role: Role,
    /// Where the handshake stands.
    pub state: HsState,
    /// The local long-term secret key (a copy of the node identity).
    pub static_sk: Vec<u8>,
    /// Its public half.
    pub static_pk: Vec<u8>,
    /// The peer's static key: known a priori to an initiator, learned from
    /// the auth signature by a recipient.
    pub remote_static_pk: Vec<u8>,
    /// The single-use secret key of this attempt.
    pub eph_sk: Vec<u8>,
    /// Its public half.
    pub eph_pk: Vec<u8>,
    /// This side's fresh 32-byte nonce.
    pub nonce: Vec<u8>,
    /// The raw bytes of the auth message as sent (initiator side).
    pub sent_transcript: Vec<u8>,
    /// Bytes received and not yet consumed.
    pub buf: Vec<u8>,
}

impl HandshakeSession {
    /// The structural invariant of a live session.
    pub open spec fn wf(&self) -> bool {
        &&& self.static_sk.len() == 32
        &&& self.static_pk.len() == 64
        &&& self.static_pk@ == pubkey_of(self.static_sk@)
        &&& valid_secret_key(self.static_sk@)
        &&& self.eph_sk.len() == 32
        &&& self.eph_pk.len() == 64
        &&& self.eph_pk@ == pubkey_of(self.eph_sk@)
        &&& valid_secret_key(self.eph_sk@)
        &&& self.nonce.len() == crate::NONCE_LEN
        &&& (self.role == Role::Initiator ==> self.remote_static_pk.len() == crate::PUBLIC_KEY_LEN)
    }

    /// An initiator session from explicit single-use material.
    pub fn new_initiator_with(
        static_sk: Vec<u8>,
        remote_static_pk: Vec<u8>,
        eph_sk: Vec<u8>,
        nonce: Vec<u8>,
    ) -> (r: Result<Self, ECIESEerror>)
        requires
            static_sk.len() == 32,
            remote_static_pk.len() == 64,
            eph_sk.len() == 32,
            nonce.len() == 32,
        ensures
            (r is Ok) <==> (valid_secret_key(static_sk@) && valid_secret_key(eph_sk@)),
            r matches Err(e) ==> e == ECIESEerror::KeyAgreementError,
            r matches Ok(s) ==> s.wf() && s.role == Role::Initiator && s.state == HsState::New
                && s.static_sk@ == static_sk@ && s.remote_static_pk@ == remote_static_pk@
                && s.eph_sk@ == eph_sk@ && s.nonce@ == nonce@ && s.buf@ == Seq::<u8>::empty()
                && s.sent_transcript@ == Seq::<u8>::empty(),
    {
        let static_pk = match derive_public(&static_sk) {
            Some(p) => p,
            None => {
                return Err(ECIESEerror::KeyAgreementError);
            }
        };
        let eph_pk = match derive_public(&eph_sk) {
            Some(p) => p,
            None => {
                return Err(ECIESEerror::KeyAgreementError);
            }
        };
        let s = HandshakeSession {
            role: Role::Initiator,
            state: HsState::New,
            static_sk,
            static_pk,
            remote_static_pk,
            eph_sk,
            eph_pk,
            nonce,
            sent_transcript: Vec::new(),
            buf: Vec::new(),
        };
        assert(s.buf@ =~= Seq::<u8>::empty());
        assert(s.sent_transcript@ =~= Seq::<u8>::empty());
        Ok(s)
    }

    /// An initiator session with a fresh single-use keypair and nonce.
    pub fn new_initiator(static_sk: Vec<u8>, remote_static_pk: Vec<u8>) -> (r: Result<
        Self,
        ECIESEerror,
    >)
        requires
            static_sk.len() == 32,
            remote_static_pk.len() == 64,
        ensures
            (r is Ok) <==> valid_secret_key(static_sk@),
            r matches Err(e) ==> e == ECIESEerror::KeyAgreementError,
            r matches Ok(s) ==> s.wf() && s.role == Role::Initiator && s.state == HsState::New
                && s.static_sk@ == static_sk@ && s.remote_static_pk@ == remote_static_pk@
                && s.buf@ == Seq::<u8>::empty(),
    {
        let (eph_sk, _eph_pk) = generate_keypair();
        let nonce = random_bytes(32);
        Self::new_initiator_with(static_sk, remote_static_pk, eph_sk, nonce)
    }

    /// A recipient session from explicit single-use material.
    pub fn new_recipient_with(static_sk: Vec<u8>, eph_sk: Vec<u8>, nonce: Vec<u8>) -> (r: Result<
        Self,
        ECIESEerror,
    >)
        requires
            static_sk.len() == 32,
            eph_sk.len() == 32,
            nonce.len() == 32,
        ensures
            (r is Ok) <==> (valid_secret_key(static_sk@) && valid_secret_key(eph_sk@)),
            r matches Err(e) ==> e == ECIESEerror::KeyAgreementError,
            r matches Ok(s) ==> s.wf() && s.role == Role::Recipient && s.state
                == HsState::AwaitingAuth && s.static_sk@ == static_sk@ && s.eph_sk@ == eph_sk@
                && s.nonce@ == nonce@ && s.buf@ == Seq::<u8>::empty(),
    {
        let static_pk = match derive_public(&static_sk) {
            Some(p) => p,
            None => {
                return Err(ECIESEerror::KeyAgreementError);
            }
        };
        let eph_pk = match derive_public(&eph_sk) {
            Some(p) => p,
            None => {
                return Err(ECIESEerror::KeyAgreementError);
            }
        };
        let s = HandshakeSession {
            role: Role::Recipient,
            state: HsState::AwaitingAuth,
            static_sk,
            static_pk,
            remote_static_pk: Vec::new(),
            eph_sk,
            eph_pk,
            nonce,
            sent_transcript: Vec::new(),
            buf: Vec::new(),
        };
        assert(s.buf@ =~= Seq::<u8>::empty());
        Ok(s)
    }

    /// Builds, seals and records this initiator's auth message: the
    /// signature binding the single-use key to the identity, the single-use
    /// public key, the nonce and the version, sealed to the recipient's
    /// static key and framed with a length prefix. Succeeds exactly when the
    /// recipient's key is a valid point.
    pub fn auth_message(&mut self) -> (r: Result<Vec<u8>, ECIESEerror>)
        requires
            old(self).wf(),
            old(self).role == Role::Initiator,
            old(self).state == HsState::New,
        ensures
            final(self).wf(),
            final(self).role == old(self).role,
            final(self).static_sk@ == old(self).static_sk@,
            final(self).remote_static_pk@ == old(self).remote_static_pk@,
            final(self).eph_sk@ == old(self).eph_sk@,
            final(self).eph_pk@ == old(self).eph_pk@,
            final(self).nonce@ == old(self).nonce@,
            final(self).buf@ == old(self).buf@,
            (r is Ok) <==> valid_pubkey(old(self).remote_static_pk@),
            r matches Err(e) ==> e == ECIESEerror::KeyAgreementError && final(self).state
                == HsState::Failed,
            r matches Ok(m) ==> final(self).state == HsState::AuthSent
                && final(self).sent_transcript@ == m@ && msg_ready(m@) && msg_len(m@) == m@.len()
                && (exists|
                esk2: Seq<u8>,
                iv2: Seq<u8>,
            |
                valid_secret_key(esk2) && valid_pubkey(pubkey_of(esk2)) && iv2.len() == 16 && m@
                    == wire_spec(
                    seal_model(
                        old(self).remote_static_pk@,
                        auth_payload_spec(
                            old(self).static_sk@,
                            old(self).remote_static_pk@,
                            old(self).eph_pk@,
                            old(self).eph_sk@,
                            old(self).nonce@,
                        ),
                        esk2,
                        iv2,
                    ),
                )),
    {
        let x = match ecdh(&self.remote_static_pk, &self.eph_sk) {
            Some(x) => x,
            None => {
                self.state = HsState::Failed;
                return Err(ECIESEerror::KeyAgreementError);
            }
        };
        let m32 = xor_bytes(&x, &self.nonce);
        let sig = match sign_recoverable(&m32, &self.static_sk) {
            Some(s) => s,
            None => {
                self.state = HsState::Failed;
                return Err(ECIESEerror::KeyAgreementError);
            }
        };
        let mut version: Vec<u8> = Vec::new();
        version.push(PROTOCOL_VERSION);
        let mut fields: Vec<Vec<u8>> = Vec::new();
        fields.push(sig);
        fields.push(copy_bytes(&self.eph_pk));
        fields.push(copy_bytes(&self.nonce));
        fields.push(version);
        proof {
            assert(version@ =~= seq![PROTOCOL_VERSION]);
            assert(forall|i: int| 0 <= i < fields@.len() ==> #[trigger] fields@[i].len() < 65536);
        }
        let payload = encode_fields(&fields);
        proof {
            let spec_fields = seq![
                sig_of(
                    xor_seq(ecdh_of(old(self).remote_static_pk@, old(self).eph_sk@), old(self).nonce@),
                    old(self).static_sk@,
                ),
                old(self).eph_pk@,
                old(self).nonce@,
                seq![PROTOCOL_VERSION],
            ];
            assert(deep_view(fields@) =~= spec_fields);
            lemma_encode4(spec_fields[0], spec_fields[1], spec_fields[2], spec_fields[3]);
            assert(payload@.len() == 170);
        }
        let env = match seal(&self.remote_static_pk, &payload) {
            Ok(env) => env,
            Err(e) => {
                self.state = HsState::Failed;
                return Err(e);
            }
        };
        let m = encode_message(&env);
        self.sent_transcript = copy_bytes(&m);
        self.state = HsState::AuthSent;
        proof {
            let (esk2, iv2): (Seq<u8>, Seq<u8>) = choose|esk2: Seq<u8>, iv2: Seq<u8>|
                valid_secret_key(esk2) && valid_pubkey(pubkey_of(esk2)) && iv2.len() == 16
                    && env.m() == seal_model(old(self).remote_static_pk@, payload@, esk2, iv2);
            assert(valid_secret_key(esk2) && valid_pubkey(pubkey_of(esk2)) && iv2.len() == 16 && m@
                == wire_spec(
                seal_model(
                    old(self).remote_static_pk@,
                    auth_payload_spec(
                        old(self).static_sk@,
                        old(self).remote_static_pk@,
                        old(self).eph_pk@,
                        old(self).eph_sk@,
                        old(self).nonce@,
                    ),
                    esk2,
                    iv2,
                ),
            ));
        }
        Ok(m)
    }

    /// Feeds received bytes to the state machine: `NeedMore` until one
    /// complete message is buffered, then the message is processed. A
    /// recipient opens the auth, learns the peer's identity from its
    /// signature, answers with a sealed ack and establishes; an initiator
    /// opens the ack and establishes. Every error is terminal: the session
    /// moves to `Failed` and must be discarded.
    pub fn advance(&mut self, chunk: &Vec<u8>) -> (r: Result<Advance, ECIESEerror>)
        requires
            old(self).wf(),
            (old(self).role == Role::Initiator && old(self).state == HsState::AuthSent) || (old(
                self,
            ).role == Role::Recipient && old(self).state == HsState::AwaitingAuth),
        ensures
            final(self).wf(),
            final(self).role == old(self).role,
            final(self).static_sk@ == old(self).static_sk@,
            final(self).eph_sk@ == old(self).eph_sk@,
            final(self).eph_pk@ == old(self).eph_pk@,
            final(self).nonce@ == old(self).nonce@,
            final(self).sent_transcript@ == old(self).sent_transcript@,
            !msg_ready(old(self).buf@ + chunk@) ==> (r matches Ok(a) && a is NeedMore
                && final(self).buf@ == old(self).buf@ + chunk@ && final(self).state == old(
                self,
            ).state),
            msg_ready(old(self).buf@ + chunk@) ==> final(self).buf@ == (old(self).buf@
                + chunk@).skip(msg_len(old(self).buf@ + chunk@)),
            (msg_ready(old(self).buf@ + chunk@) && old(self).role == Role::Recipient) ==> {
                let m = (old(self).buf@ + chunk@).take(msg_len(old(self).buf@ + chunk@));
                &&& (auth_error_spec(old(self).static_sk@, m) matches Some(e) ==> r matches Err(
                    e2,
                ) && e2 == e && final(self).state == HsState::Failed)
                &&& (auth_error_spec(old(self).static_sk@, m) is None ==> (r matches Ok(a)
                    && a matches Advance::Established { reply, secrets } && final(self).state
                    == HsState::Established && recipient_outcome_ok(
                    old(self).static_sk@,
                    old(self).eph_sk@,
                    old(self).eph_pk@,
                    old(self).nonce@,
                    m,
                    reply,
                    secrets,
                ) && final(self).remote_static_pk@ == auth_peer_spec(old(self).static_sk@, m)))
            },
            (msg_ready(old(self).buf@ + chunk@) && old(self).role == Role::Initiator) ==> {
                let m = (old(self).buf@ + chunk@).take(msg_len(old(self).buf@ + chunk@));
                &&& (ack_error_spec(old(self).static_sk@, m) matches Some(e) ==> r matches Err(e2)
                    && e2 == e && final(self).state == HsState::Failed)
                &&& (ack_error_spec(old(self).static_sk@, m) is None ==> (r matches Ok(a)
                    && a matches Advance::Established { reply, secrets } && final(self).state
                    == HsState::Established && initiator_outcome_ok(
                    old(self).static_sk@,
                    old(self).eph_sk@,
                    old(self).nonce@,
                    old(self).sent_transcript@,
                    m,
                    reply,
                    secrets,
                )))
            },
    {
        append_bytes(&mut self.buf, chunk);
        let ghost input = old(self).buf@ + chunk@;
        if self.buf.len() < 2 {
            return Ok(Advance::NeedMore);
        }
        let l = read_be2(&self.buf, 0) as usize;
        proof {
            assert(input.take(2) =~= input.subrange(0, 2));
        }
        if self.buf.len() - 2 < l {
            return Ok(Advance::NeedMore);
        }
        let mlen = 2 + l;
        let msgv = copy_range(&self.buf, 0, mlen);
        let rest = copy_range(&self.buf, mlen, self.buf.len());
        self.buf = rest;
        let ghost m = input.take(msg_len(input));
        proof {
            assert(msg_ready(input));
            assert(msgv@ =~= m);
            assert(self.buf@ =~= input.skip(msg_len(input)));
        }
        if l < 96 {
            self.state = HsState::Failed;
            if self.role == Role::Recipient {
                return Err(ECIESEerror::InvalidAuthData);
            } else {
                return Err(ECIESEerror::InvalidAckData);
            }
        }
        let epk = copy_range(&msgv, 2, 66);
        let iv = copy_range(&msgv, 66, 82);
        let ct = copy_range(&msgv, 82, mlen - 16);
        let tag = copy_range(&msgv, mlen - 16, mlen);
        let env = EciesEnvelope { ephemeral_public_key: epk, iv, ciphertext: ct, tag };
        proof {
            let body = m.skip(2);
            assert(env.ephemeral_public_key@ =~= body.take(64));
            assert(env.iv@ =~= body.subrange(64, 80));
            assert(env.ciphertext@ =~= body.subrange(80, body.len() - 16));
            assert(env.tag@ =~= body.skip(body.len() - 16));
            assert(env.m() == env_of_msg(m));
        }
        let payload = match open(&self.static_sk, &env) {
            Ok(p) => p,
            Err(e) => {
                self.state = HsState::Failed;
                return Err(e);
            }
        };
        let fields = match parse_fields(&payload) {
            Some(f) => f,
            None => {
                self.state = HsState::Failed;
                if self.role == Role::Recipient {
                    return Err(ECIESEerror::InvalidAuthData);
                } else {
                    return Err(ECIESEerror::InvalidAckData);
                }
            }
        };
        let ghost fs = msg_fields(old(self).static_sk@, m);
        proof {
            assert(fs == deep_view(fields@));
        }
        if self.role == Role::Recipient {
            if fields.len() < 4 {
                self.state = HsState::Failed;
                return Err(ECIESEerror::InvalidAuthData);
            }
            if fields[0].len() != 65 || fields[1].len() != 64 || fields[2].len() != 32
                || fields[3].len() < 1 {
                self.state = HsState::Failed;
                return Err(ECIESEerror::InvalidAuthData);
            }
            let repk = copy_bytes(&fields[1]);
            let rnonce = copy_bytes(&fields[2]);
            let sig = copy_bytes(&fields[0]);
            let x = match ecdh(&repk, &self.static_sk) {
                Some(x) => x,
                None => {
                    self.state = HsState::Failed;
                    return Err(ECIESEerror::KeyAgreementError);
                }
            };
            let m32 = xor_bytes(&x, &rnonce);
            let rspk = match recover(&m32, &sig) {
                Some(p) => p,
                None => {
                    self.state = HsState::Failed;
                    return Err(ECIESEerror::InvalidAuthData);
                }
            };
            self.remote_static_pk = rspk;
            let mut version: Vec<u8> = Vec::new();
            version.push(PROTOCOL_VERSION);
            let mut afields: Vec<Vec<u8>> = Vec::new();
            afields.push(copy_bytes(&self.eph_pk));
            afields.push(copy_bytes(&self.nonce));
            afields.push(version);
            proof {
                assert(forall|i: int|
                    0 <= i < afields@.len() ==> #[trigger] afields@[i].len() < 65536);
            }
            let payload2 = encode_fields(&afields);
            proof {
                let spec_fields = seq![
                    old(self).eph_pk@,
                    old(self).nonce@,
                    seq![PROTOCOL_VERSION],
                ];
                assert(deep_view(afields@) =~= spec_fields);
                lemma_encode3(spec_fields[0], spec_fields[1], spec_fields[2]);
                assert(payload2@.len() == 103);
                assert(payload2@ == ack_payload_spec(old(self).eph_pk@, old(self).nonce@));
            }
            let env2 = match seal(&self.remote_static_pk, &payload2) {
                Ok(env2) => env2,
                Err(e) => {
                    self.state = HsState::Failed;
                    return Err(e);
                }
            };
            let reply = encode_message(&env2);
            let secrets = match derive_secrets(
                Role::Recipient,
                &self.eph_sk,
                &repk,
                &self.nonce,
                &rnonce,
                &reply,
                &msgv,
            ) {
                Ok(s) => s,
                Err(e) => {
                    self.state = HsState::Failed;
                    return Err(e);
                }
            };
            self.state = HsState::Established;
            proof {
                let (esk2, iv2): (Seq<u8>, Seq<u8>) = choose|esk2: Seq<u8>, iv2: Seq<u8>|
                    valid_secret_key(esk2) && valid_pubkey(pubkey_of(esk2)) && iv2.len() == 16
                        && env2.m() == seal_model(
                        auth_peer_spec(old(self).static_sk@, m),
                        payload2@,
                        esk2,
                        iv2,
                    );
                assert(valid_secret_key(esk2) && valid_pubkey(pubkey_of(esk2)) && iv2.len() == 16
                    && reply@ == wire_spec(
                    seal_model(
                        auth_peer_spec(old(self).static_sk@, m),
                        ack_payload_spec(old(self).eph_pk@, old(self).nonce@),
                        esk2,
                        iv2,
                    ),
                ));
            }
            Ok(Advance::Established { reply: Some(reply), secrets })
        } else {
            if fields.len() < 3 {
                self.state = HsState::Failed;
                return Err(ECIESEerror::InvalidAckData);
            }
            if fields[0].len() != 64 || fields[1].len() != 32 || fields[2].len() < 1 {
                self.state = HsState::Failed;
                return Err(ECIESEerror::InvalidAckData);
            }
            let repk = copy_bytes(&fields[0]);
            let rnonce = copy_bytes(&fields[1]);
            let secrets = match derive_secrets(
                Role::Initiator,
                &self.eph_sk,
                &repk,
                &self.nonce,
                &rnonce,
                &self.sent_transcript,
                &msgv,
            ) {
                Ok(s) => s,
                Err(e) => {
                    self.state = HsState::Failed;
                    return Err(e);
                }
            };
            self.state = HsState::Established;
            Ok(Advance::Established { reply: None, secrets })
        }
    }

    /// A recipient session with a fresh single-use keypair and nonce.
    pub fn new_recipient(static_sk: Vec<u8>) -> (r: Result<Self, ECIESEerror>)
        requires
            static_sk.len() == 32,
        ensures
            (r is Ok) <==> valid_secret_key(static_sk@),
            r matches Err(e) ==> e == ECIESEerror::KeyAgreementError,
            r matches Ok(s) ==> s.wf() && s.role == Role::Recipient && s.state
                == HsState::AwaitingAuth && s.static_sk@ == static_sk@ && s.buf@ == Seq::<
                u8,
            >::empty(),
    {
        let (eph_sk, _eph_pk) = generate_keypair();
        let nonce = random_bytes(32);
        Self::new_recipient_with(static_sk, eph_sk, nonce)
    }
}

} // verus!
