//! Trusted bindings to the cryptographic primitives this protocol is built
//! on: SHA-256 (key derivation), Keccak-256 (transcript hashing and MACs),
//! single-block AES (the counter-mode keystream and the header-MAC cipher),
//! and the secp256k1 elliptic curve (key generation, Diffie-Hellman,
//! recoverable signatures).
//!
//! Each executable function here is believed, not verified: its contract
//! states only what the named crate's source and documentation show. The
//! results of the primitives themselves are given opaque names (`sha256_of`
//! and the like), since writing the algorithms out as spec functions would
//! state nothing anyone could check them against.

use vstd::prelude::*;

use aes::cipher::BlockCipherEncrypt;
use aes::cipher::KeyInit;
use secp256k1::ecdsa::RecoverableSignature;
use secp256k1::ecdsa::RecoveryId;

verus! {

/// The SHA-256 digest of a byte string: 32 bytes.
pub uninterp spec fn sha256_of(data: Seq<u8>) -> Seq<u8>;

/// The Keccak-256 digest of a byte string: 32 bytes.
pub uninterp spec fn keccak_of(data: Seq<u8>) -> Seq<u8>;

/// One AES-128 block encryption: 16-byte key schedule input, 16-byte block.
pub uninterp spec fn aes128_block_of(key: Seq<u8>, block: Seq<u8>) -> Seq<u8>;

/// One AES-256 block encryption: 32-byte key schedule input, 16-byte block.
pub uninterp spec fn aes256_block_of(key: Seq<u8>, block: Seq<u8>) -> Seq<u8>;

/// Whether 32 bytes are a valid secp256k1 secret scalar.
pub uninterp spec fn valid_secret_key(sk: Seq<u8>) -> bool;

/// Whether 64 bytes (an uncompressed point, prefix stripped) are a valid
/// secp256k1 curve point.
pub uninterp spec fn valid_pubkey(pk: Seq<u8>) -> bool;

/// The 64-byte public key derived from a valid secret key.
pub uninterp spec fn pubkey_of(sk: Seq<u8>) -> Seq<u8>;

/// The 32-byte Diffie-Hellman shared secret of a public key and a secret key.
pub uninterp spec fn ecdh_of(pk: Seq<u8>, sk: Seq<u8>) -> Seq<u8>;

/// The 65-byte recoverable signature (64 compact bytes, then the recovery id)
/// of a 32-byte message under a secret key. RFC 6979 makes it deterministic.
pub uninterp spec fn sig_of(msg: Seq<u8>, sk: Seq<u8>) -> Seq<u8>;

/// The public key recovered from a 32-byte message and a 65-byte recoverable
/// signature, or `None` when the signature is not recoverable.
pub uninterp spec fn recover_of(msg: Seq<u8>, sig: Seq<u8>) -> Option<Seq<u8>>;

/// Relies on sha2::Sha256::digest: the one-shot SHA-256 digest, 32 bytes,
/// a function of the input alone.
#[verifier::external_body]
pub fn sha256(data: &Vec<u8>) -> (r: Vec<u8>)
    ensures
        r@ == sha256_of(data@),
        r@.len() == 32,
{
    <sha2::Sha256 as sha2::Digest>::digest(data.as_slice()).as_slice().to_vec()
}

/// Relies on sha3::Keccak256::digest: the one-shot Keccak-256 digest, 32
/// bytes, a function of the input alone.
#[verifier::external_body]
pub fn keccak256(data: &Vec<u8>) -> (r: Vec<u8>)
    ensures
        r@ == keccak_of(data@),
        r@.len() == 32,
{
    <sha3::Keccak256 as sha3::Digest>::digest(data.as_slice()).as_slice().to_vec()
}

/// Relies on aes::Aes128 (cipher::BlockCipherEncrypt::encrypt_block): one
/// block encrypted in codebook mode, a function of key and block alone.
#[verifier::external_body]
pub fn aes128_encrypt_block(key: &Vec<u8>, block: &Vec<u8>) -> (r: Vec<u8>)
    requires
        key.len() == 16,
        block.len() == 16,
    ensures
        r@ == aes128_block_of(key@, block@),
        r@.len() == 16,
{
    let c = aes::Aes128::new(&aes::cipher::Array::clone_from_slice(key.as_slice()));
    let mut b: aes::Block = aes::cipher::Array::clone_from_slice(block.as_slice());
    c.encrypt_block(&mut b);
    b.as_slice().to_vec()
}

/// Relies on aes::Aes256 (cipher::BlockCipherEncrypt::encrypt_block): one
/// block encrypted in codebook mode, a function of key and block alone.
#[verifier::external_body]
pub fn aes256_encrypt_block(key: &Vec<u8>, block: &Vec<u8>) -> (r: Vec<u8>)
    requires
        key.len() == 32,
        block.len() == 16,
    ensures
        r@ == aes256_block_of(key@, block@),
        r@.len() == 16,
{
    let c = aes::Aes256::new(&aes::cipher::Array::clone_from_slice(key.as_slice()));
    let mut b: aes::Block = aes::cipher::Array::clone_from_slice(block.as_slice());
    c.encrypt_block(&mut b);
    b.as_slice().to_vec()
}

/// Relies on secp256k1::generate_keypair with the rand crate's thread
/// generator: a fresh keypair; the public half is the uncompressed
/// serialization of the secret half's point, prefix byte stripped.
#[verifier::external_body]
pub fn generate_keypair() -> (r: (Vec<u8>, Vec<u8>))
    ensures
        r.0@.len() == 32,
        r.1@.len() == 64,
        valid_secret_key(r.0@),
        r.1@ == pubkey_of(r.0@),
        valid_pubkey(r.1@),
{
    let (sk, pk) = secp256k1::generate_keypair(&mut secp256k1::rand::rng());
    (sk.to_secret_bytes().to_vec(), pk.serialize_uncompressed()[1..].to_vec())
}

/// Relies on rand::fill with the thread generator: `n` random bytes; nothing
/// is promised of their values.
#[verifier::external_body]
pub fn random_bytes(n: usize) -> (r: Vec<u8>)
    ensures
        r@.len() == n,
{
    let mut v = vec![0u8; n];
    rand::fill(&mut v[..]);
    v
}

/// Relies on secp256k1::PublicKey::from_secret_key and
/// serialize_uncompressed: the public key of a secret key, derived
/// deterministically; SecretKey::from_secret_bytes succeeds exactly on valid
/// scalars.
#[verifier::external_body]
pub fn derive_public(sk: &Vec<u8>) -> (r: Option<Vec<u8>>)
    requires
        sk.len() == 32,
    ensures
        (r is Some) <==> valid_secret_key(sk@),
        r matches Some(v) ==> v@ == pubkey_of(sk@) && v@.len() == 64 && valid_pubkey(v@),
{
    let mut buf = [0u8; 32];
    buf.copy_from_slice(sk.as_slice());
    match secp256k1::SecretKey::from_secret_bytes(buf) {
        Ok(s) => {
            let pk = secp256k1::PublicKey::from_secret_key(&s);
            Some(pk.serialize_uncompressed()[1..].to_vec())
        }
        Err(_) => None,
    }
}

/// Relies on secp256k1::ecdh::SharedSecret::new: the Diffie-Hellman shared
/// secret of a point and a scalar, 32 bytes. Diffie-Hellman agreement, the
/// module's documented purpose, is that both parties of an exchange compute
/// the same secret: for any scalar whose point the given public key is, the
/// secret equals the one computed from the other side's material.
/// PublicKey::from_byte_array_uncompressed succeeds exactly on valid points,
/// SecretKey::from_secret_bytes exactly on valid scalars.
#[verifier::external_body]
pub fn ecdh(pk: &Vec<u8>, sk: &Vec<u8>) -> (r: Option<Vec<u8>>)
    requires
        pk.len() == 64,
        sk.len() == 32,
    ensures
        (r is Some) <==> (valid_secret_key(sk@) && valid_pubkey(pk@)),
        r matches Some(v) ==> v@ == ecdh_of(pk@, sk@) && v@.len() == 32,
        r matches Some(v) ==> forall|sk2: Seq<u8>|
            pk@ == pubkey_of(sk2) && valid_secret_key(sk2) ==> ecdh_of(pk@, sk@) == ecdh_of(
                pubkey_of(sk@),
                sk2,
            ),
{
    let mut buf = [4u8; 65];
    buf[1..].copy_from_slice(pk.as_slice());
    let mut skb = [0u8; 32];
    skb.copy_from_slice(sk.as_slice());
    let point = match secp256k1::PublicKey::from_byte_array_uncompressed(buf) {
        Ok(p) => p,
        Err(_) => return None,
    };
    let scalar = match secp256k1::SecretKey::from_secret_bytes(skb) {
        Ok(s) => s,
        Err(_) => return None,
    };
    Some(secp256k1::ecdh::SharedSecret::new(&point, &scalar).to_secret_bytes().to_vec())
}

/// Relies on secp256k1::ecdsa::RecoverableSignature::sign_ecdsa_recoverable
/// and serialize_compact: the RFC 6979 deterministic recoverable signature,
/// 64 compact bytes followed by the recovery id byte; recover_ecdsa
/// determines from it the public key that made the signature.
#[verifier::external_body]
pub fn sign_recoverable(msg: &Vec<u8>, sk: &Vec<u8>) -> (r: Option<Vec<u8>>)
    requires
        msg.len() == 32,
        sk.len() == 32,
    ensures
        (r is Some) <==> valid_secret_key(sk@),
        r matches Some(v) ==> v@ == sig_of(msg@, sk@) && v@.len() == 65 && recover_of(
            msg@,
            v@,
        ) == Some(pubkey_of(sk@)),
{
    let mut mb = [0u8; 32];
    mb.copy_from_slice(msg.as_slice());
    let mut skb = [0u8; 32];
    skb.copy_from_slice(sk.as_slice());
    let scalar = match secp256k1::SecretKey::from_secret_bytes(skb) {
        Ok(s) => s,
        Err(_) => return None,
    };
    let sig = RecoverableSignature::sign_ecdsa_recoverable(secp256k1::Message::from_digest(mb), &scalar);
    let (rid, compact) = sig.serialize_compact();
    let mut out = compact.to_vec();
    out.push(rid.to_u8());
    Some(out)
}

/// Relies on secp256k1::ecdsa::RecoverableSignature::recover_ecdsa (with
/// RecoveryId::try_from and from_compact converting the 65 wire bytes): the
/// public key for which the signature is valid for the message, or nothing
/// when no key can be recovered.
#[verifier::external_body]
pub fn recover(msg: &Vec<u8>, sig: &Vec<u8>) -> (r: Option<Vec<u8>>)
    requires
        msg.len() == 32,
        sig.len() == 65,
    ensures
        (r is Some) <==> (recover_of(msg@, sig@) is Some),
        r matches Some(v) ==> Some(v@) == recover_of(msg@, sig@) && v@.len() == 64 && valid_pubkey(
            v@,
        ),
{
    let mut mb = [0u8; 32];
    mb.copy_from_slice(msg.as_slice());
    let rid = match RecoveryId::try_from(sig[64] as i32) {
        Ok(rid) => rid,
        Err(_) => return None,
    };
    let rsig = match RecoverableSignature::from_compact(&sig[..64], rid) {
        Ok(s) => s,
        Err(_) => return None,
    };
    match rsig.recover_ecdsa(secp256k1::Message::from_digest(mb)) {
        Ok(pk) => Some(pk.serialize_uncompressed()[1..].to_vec()),
        Err(_) => None,
    }
}

} // verus!
