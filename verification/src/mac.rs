//! The running MAC: a keyed, chained hash accumulator kept per direction of
//! an established connection. Plain updates absorb bulk ciphertext; header
//! updates chain a codebook-encrypted image of the current digest into the
//! accumulator; the digest is the low 16 bytes of the accumulator's hash.
//!
//! The accumulator is modelled by the exact byte sequence absorbed so far:
//! hashing at digest time over the absorbed bytes equals feeding them
//! incrementally into the hash.

use vstd::prelude::*;

use crate::bytes::append_bytes;
use crate::bytes::low16;
use crate::bytes::xor_bytes;
use crate::bytes::xor_seq;
use crate::crypto::aes256_block_of;
use crate::crypto::aes256_encrypt_block;
use crate::crypto::keccak256;
use crate::crypto::keccak_of;

verus! {

/// The 16-byte digest of an accumulator holding `absorbed`.
pub open spec fn mac_digest_spec(absorbed: Seq<u8>) -> Seq<u8> {
    low16(keccak_of(absorbed))
}

/// What a header update leaves absorbed: the 16-byte block XORed with the
/// current digest encrypted under the MAC secret in single-block mode.
pub open spec fn mac_header_absorbed(secret: Seq<u8>, absorbed: Seq<u8>, block: Seq<u8>) -> Seq<
    u8,
> {
    absorbed + xor_seq(aes256_block_of(secret, mac_digest_spec(absorbed)), block)
}

/// One direction's MAC chain. Never reset: every byte authenticated in this
/// direction is reflected in `absorbed`, in order.
#[derive(Debug)]
pub struct MAC {
    /// The MAC secret, used as the codebook-cipher key for header blocks.
    pub secret: Vec<u8>,
    /// Every byte absorbed into the accumulator so far.
    pub absorbed: Vec<u8>,
}

impl MAC {
    /// The structural invariant: the header cipher takes a 32-byte key.
    pub open spec fn wf(&self) -> bool {
        self.secret.len() == 32
    }

    /// A fresh accumulator keyed by `secret`, with nothing absorbed.
    pub fn new(secret: Vec<u8>) -> (r: Self)
        ensures
            r.secret@ == secret@,
            r.absorbed@ == Seq::<u8>::empty(),
    {
        let r = MAC { secret, absorbed: Vec::new() };
        assert(r.absorbed@ =~= Seq::<u8>::empty());
        r
    }

    /// Absorbs arbitrary bytes (bulk ciphertext) into the accumulator.
    pub fn update(&mut self, data: &Vec<u8>)
        ensures
            final(self).secret@ == old(self).secret@,
            final(self).absorbed@ == old(self).absorbed@ + data@,
    {
        append_bytes(&mut self.absorbed, data);
    }

    /// The low 16 bytes of the accumulator's hash.
    pub fn digest(&self) -> (r: Vec<u8>)
        ensures
            r@ == mac_digest_spec(self.absorbed@),
            r.len() == 16,
    {
        let d = keccak256(&self.absorbed);
        let mut r: Vec<u8> = Vec::new();
        let mut i: usize = 0;
        while i < 16
            invariant
                i <= 16,
                d@ == keccak_of(self.absorbed@),
                d.len() == 32,
                r.len() == i,
                forall|j: int| 0 <= j < i ==> r@[j] == d@[j],
            decreases 16 - i,
        {
            r.push(d[i]);
            i += 1;
        }
        assert(r@ =~= mac_digest_spec(self.absorbed@));
        r
    }

    /// The chained header update: XORs the 16-byte block with the current
    /// digest encrypted under the MAC secret, re-absorbs the result, and
    /// returns the new digest as the header tag.
    pub fn update_header(&mut self, block: &Vec<u8>) -> (r: Vec<u8>)
        requires
            old(self).wf(),
            block.len() == 16,
        ensures
            final(self).secret@ == old(self).secret@,
            final(self).absorbed@ == mac_header_absorbed(
                old(self).secret@,
                old(self).absorbed@,
                block@,
            ),
            r@ == mac_digest_spec(final(self).absorbed@),
            r.len() == 16,
            final(self).wf(),
    {
        let d = self.digest();
        let e = aes256_encrypt_block(&self.secret, &d);
        let x = xor_bytes(&e, block);
        self.update(&x);
        self.digest()
    }
}

} // verus!
