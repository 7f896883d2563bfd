//! Envelope encryption for handshake messages: seal a payload to a
//! recipient's static public key with a fresh single-use keypair, a
//! counter-mode cipher and a keyed tag; open checks the tag in constant time
//! before any decryption.

use vstd::prelude::*;

use crate::bytes::append_bytes;
use crate::bytes::be_val;
use crate::bytes::ct_eq;
use crate::bytes::low16;
use crate::cipher::ctr_xor;
use crate::cipher::CtrCipher;
use crate::crypto::ecdh;
use crate::crypto::ecdh_of;
use crate::crypto::generate_keypair;
use crate::crypto::keccak256;
use crate::crypto::keccak_of;
use crate::crypto::pubkey_of;
use crate::crypto::random_bytes;
use crate::crypto::valid_pubkey;
use crate::crypto::valid_secret_key;
use crate::errors::ECIESEerror;
use crate::kdf::expand;
use crate::kdf::kdf_spec;

verus! {

/// The spec-level image of an envelope: ephemeral public key, IV,
/// ciphertext, tag.
pub type EnvelopeModel = (Seq<u8>, Seq<u8>, Seq<u8>, Seq<u8>);

/// The cipher key derived from a shared secret: the first 16 bytes of the
/// expanded material, with an empty context.
pub open spec fn env_aes_key(shared: Seq<u8>) -> Seq<u8> {
    kdf_spec(shared, Seq::empty(), 32).take(16)
}

/// The tag key: the last 16 bytes of the same expansion.
pub open spec fn env_mac_key(shared: Seq<u8>) -> Seq<u8> {
    kdf_spec(shared, Seq::empty(), 32).skip(16)
}

/// The envelope tag: the low 16 bytes of the keyed hash over `IV ‖
/// ciphertext` — the running-MAC construction, single-shot.
pub open spec fn envelope_tag_spec(mac_key: Seq<u8>, iv: Seq<u8>, ct: Seq<u8>) -> Seq<u8> {
    low16(keccak_of(mac_key + iv + ct))
}

/// What sealing `pt` to `pk` produces, given the single-use secret key and
/// IV drawn for it.
pub open spec fn seal_model(pk: Seq<u8>, pt: Seq<u8>, esk: Seq<u8>, iv: Seq<u8>) -> EnvelopeModel {
    let shared = ecdh_of(pk, esk);
    let ct = ctr_xor(env_aes_key(shared), be_val(iv), 0, pt);
    (pubkey_of(esk), iv, ct, envelope_tag_spec(env_mac_key(shared), iv, ct))
}

/// What opening an envelope under `sk` yields: the decryption when the
/// recomputed tag matches, nothing otherwise.
pub open spec fn open_model(sk: Seq<u8>, m: EnvelopeModel) -> Option<Seq<u8>> {
    let shared = ecdh_of(m.0, sk);
    if m.3 == envelope_tag_spec(env_mac_key(shared), m.1, m.2) {
        Some(ctr_xor(env_aes_key(shared), be_val(m.1), 0, m.2))
    } else {
        None
    }
}

/// A sealed handshake message: self-contained, independently decryptable by
/// the holder of the recipient's static secret key.
#[derive(Debug)]
pub struct EciesEnvelope {
    /// The sender's single-use public key, 64 bytes.
    pub ephemeral_public_key: Vec<u8>,
    /// The cipher initialization vector, 16 bytes.
    pub iv: Vec<u8>,
    /// The encrypted payload.
    pub ciphertext: Vec<u8>,
    /// The 16-byte authentication tag over IV and ciphertext.
    pub tag: Vec<u8>,
}

impl EciesEnvelope {
    /// The wire-width invariant of the fixed fields.
    pub open spec fn wf(&self) -> bool {
        self.ephemeral_public_key.len() == crate::PUBLIC_KEY_LEN && self.iv.len() == crate::TAG_LEN
            && self.tag.len() == crate::TAG_LEN
    }

    /// The spec-level image.
    pub open spec fn m(&self) -> EnvelopeModel {
        (self.ephemeral_public_key@, self.iv@, self.ciphertext@, self.tag@)
    }
}

/// Computes the envelope tag.
fn tag16(mac_key: &Vec<u8>, iv: &Vec<u8>, ct: &Vec<u8>) -> (r: Vec<u8>)
    ensures
        r@ == envelope_tag_spec(mac_key@, iv@, ct@),
        r.len() == 16,
{
    let mut data: Vec<u8> = Vec::new();
    append_bytes(&mut data, mac_key);
    append_bytes(&mut data, iv);
    append_bytes(&mut data, ct);
    assert(data@ =~= mac_key@ + iv@ + ct@);
    let d = keccak256(&data);
    let mut r: Vec<u8> = Vec::new();
    let mut i: usize = 0;
    while i < 16
        invariant
            i <= 16,
            d.len() == 32,
            d@ == keccak_of(mac_key@ + iv@ + ct@),
            r.len() == i,
            forall|j: int| 0 <= j < i ==> r@[j] == d@[j],
        decreases 16 - i,
    {
        r.push(d[i]);
        i += 1;
    }
    assert(r@ =~= envelope_tag_spec(mac_key@, iv@, ct@));
    r
}

/// Splits 32 bytes of expanded material into cipher key and tag key.
fn split_keys(km: &Vec<u8>) -> (r: (Vec<u8>, Vec<u8>))
    requires
        km.len() == 32,
    ensures
        r.0@ == km@.take(16),
        r.1@ == km@.skip(16),
        r.0.len() == 16,
        r.1.len() == 16,
{
    let mut ak: Vec<u8> = Vec::new();
    let mut mk: Vec<u8> = Vec::new();
    let mut i: usize = 0;
    while i < 16
        invariant
            i <= 16,
            km.len() == 32,
            ak.len() == i,
            mk.len() == i,
            forall|j: int| 0 <= j < i ==> ak@[j] == km@[j],
            forall|j: int| 0 <= j < i ==> mk@[j] == km@[16 + j],
        decreases 16 - i,
    {
        ak.push(km[i]);
        mk.push(km[16 + i]);
        i += 1;
    }
    assert(ak@ =~= km@.take(16));
    assert(mk@ =~= km@.skip(16));
    (ak, mk)
}

/// Seals `plaintext` deterministically from given single-use material. The
/// result is exactly `seal_model` of the inputs; it exists exactly when the
/// single-use key is a valid scalar and the recipient key a valid point.
pub fn seal_with(
    recipient_pk: &Vec<u8>,
    plaintext: &Vec<u8>,
    eph_sk: &Vec<u8>,
    eph_pk: Vec<u8>,
    iv: Vec<u8>,
) -> (r: Result<EciesEnvelope, ECIESEerror>)
    requires
        recipient_pk.len() == 64,
        eph_sk.len() == 32,
        eph_pk.len() == 64,
        eph_pk@ == pubkey_of(eph_sk@),
        iv.len() == 16,
    ensures
        (r is Ok) <==> (valid_secret_key(eph_sk@) && valid_pubkey(recipient_pk@)),
        r matches Ok(env) ==> env.wf() && env.m() == seal_model(
            recipient_pk@,
            plaintext@,
            eph_sk@,
            iv@,
        ) && env.ciphertext.len() == plaintext.len(),
        r matches Err(e) ==> e == ECIESEerror::KeyAgreementError,
{
    let shared = match ecdh(recipient_pk, eph_sk) {
        Some(s) => s,
        None => {
            return Err(ECIESEerror::KeyAgreementError);
        }
    };
    let empty_ctx: Vec<u8> = Vec::new();
    assert(empty_ctx@ =~= Seq::<u8>::empty());
    let km = expand(&shared, &empty_ctx, 32);
    let (ak, mk) = split_keys(&km);
    let mut cipher = CtrCipher::new(ak, &iv);
    let ct = cipher.apply(plaintext);
    let tag = tag16(&mk, &iv, &ct);
    Ok(EciesEnvelope { ephemeral_public_key: eph_pk, iv, ciphertext: ct, tag })
}

/// Seals `plaintext` to a recipient's static public key with a fresh
/// single-use keypair and IV. Succeeds exactly when the recipient key is a
/// valid point; the result is `seal_model` of the drawn material.
pub fn seal(recipient_pk: &Vec<u8>, plaintext: &Vec<u8>) -> (r: Result<
    EciesEnvelope,
    ECIESEerror,
>)
    requires
        recipient_pk.len() == 64,
    ensures
        (r is Ok) <==> valid_pubkey(recipient_pk@),
        r matches Ok(env) ==> env.wf() && env.ciphertext.len() == plaintext.len() && (exists|
            esk: Seq<u8>,
            ivr: Seq<u8>,
        |
            valid_secret_key(esk) && valid_pubkey(pubkey_of(esk)) && ivr.len() == 16 && env.m()
                == seal_model(recipient_pk@, plaintext@, esk, ivr)),
        r matches Err(e) ==> e == ECIESEerror::KeyAgreementError,
{
    let (esk, epk) = generate_keypair();
    let iv = random_bytes(16);
    let ghost esk_v = esk@;
    let ghost iv_v = iv@;
    match seal_with(recipient_pk, plaintext, &esk, epk, iv) {
        Ok(env) => {
            proof {
                assert(valid_secret_key(esk_v) && valid_pubkey(pubkey_of(esk_v)) && iv_v.len()
                    == 16 && env.m() == seal_model(recipient_pk@, plaintext@, esk_v, iv_v));
            }
            Ok(env)
        }
        Err(e) => Err(e),
    }
}

/// Opens an envelope with the local static secret key.
///
/// The tag is recomputed and compared in constant time before anything is
/// decrypted: a mismatch is `TagCheckFailed` and nothing of the ciphertext
/// is interpreted. An invalid key is `KeyAgreementError`. On success the
/// result is exactly the counter-mode decryption.
///
/// Round trip: an envelope that is `seal_model` of this key's public half
/// opens to the sealed plaintext. Tamper detection: an envelope agreeing
/// with such a seal except in the tag is rejected as `TagCheckFailed`.
pub fn open(local_sk: &Vec<u8>, env: &EciesEnvelope) -> (r: Result<Vec<u8>, ECIESEerror>)
    requires
        local_sk.len() == 32,
        env.wf(),
    ensures
        (r is Ok) <==> (valid_secret_key(local_sk@) && valid_pubkey(env.ephemeral_public_key@)
            && open_model(local_sk@, env.m()) is Some),
        r matches Ok(v) ==> Some(v@) == open_model(local_sk@, env.m()),
        r matches Err(e) ==> ((e == ECIESEerror::KeyAgreementError) <==> !(valid_secret_key(
            local_sk@,
        ) && valid_pubkey(env.ephemeral_public_key@))),
        r matches Err(e) ==> (e == ECIESEerror::KeyAgreementError || e
            == ECIESEerror::TagCheckFailed),
        forall|esk: Seq<u8>, pt: Seq<u8>|
            (valid_secret_key(local_sk@) && valid_secret_key(esk) && valid_pubkey(pubkey_of(esk))
                && env.m() == seal_model(pubkey_of(local_sk@), pt, esk, env.iv@)) ==> (r matches Ok(
                v,
            ) && v@ == pt),
        forall|esk: Seq<u8>, pt: Seq<u8>|
            (valid_secret_key(local_sk@) && valid_secret_key(esk) && valid_pubkey(pubkey_of(esk))
                && env.ephemeral_public_key@ == seal_model(
                pubkey_of(local_sk@),
                pt,
                esk,
                env.iv@,
            ).0 && env.ciphertext@ == seal_model(pubkey_of(local_sk@), pt, esk, env.iv@).2
                && env.tag@ != seal_model(pubkey_of(local_sk@), pt, esk, env.iv@).3) ==> (r
                matches Err(e) && e == ECIESEerror::TagCheckFailed),
{
    let shared = match ecdh(&env.ephemeral_public_key, local_sk) {
        Some(s) => s,
        None => {
            return Err(ECIESEerror::KeyAgreementError);
        }
    };
    let empty_ctx: Vec<u8> = Vec::new();
    assert(empty_ctx@ =~= Seq::<u8>::empty());
    let km = expand(&shared, &empty_ctx, 32);
    let (ak, mk) = split_keys(&km);
    let expected = tag16(&mk, &env.iv, &env.ciphertext);
    if !ct_eq(&expected, &env.tag) {
        return Err(ECIESEerror::TagCheckFailed);
    }
    let mut cipher = CtrCipher::new(ak, &env.iv);
    let pt = cipher.apply(&env.ciphertext);
    proof {
        assert forall|esk: Seq<u8>, ptw: Seq<u8>|
            (valid_secret_key(local_sk@) && valid_secret_key(esk) && valid_pubkey(pubkey_of(esk))
                && env.m() == seal_model(pubkey_of(local_sk@), ptw, esk, env.iv@)) implies pt@
            == ptw by {
            assert(env.ephemeral_public_key@ == pubkey_of(esk));
            assert(ecdh_of(env.ephemeral_public_key@, local_sk@) == ecdh_of(
                pubkey_of(local_sk@),
                esk,
            ));
            assert(env.ciphertext@ == ctr_xor(env_aes_key(shared@), be_val(env.iv@), 0, ptw));
            crate::cipher::lemma_ctr_xor_involution(env_aes_key(shared@), be_val(env.iv@), 0, ptw);
        }
    }
    Ok(pt)
}

} // verus!
