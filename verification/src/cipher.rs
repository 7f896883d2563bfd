//! The counter-mode stream cipher: a block cipher keystream XORed over the
//! data, with a 128-bit big-endian block counter. One instance per direction
//! of a connection; the keystream position advances continuously across
//! everything the direction encrypts, header and body alike.

use vstd::prelude::*;

use crate::bytes::be_bytes;
use crate::bytes::be_val;
use crate::bytes::lemma_be_val_bound;
use crate::bytes::pow256;
use crate::crypto::aes128_block_of;
use crate::crypto::aes128_encrypt_block;
use crate::crypto::aes256_block_of;
use crate::crypto::aes256_encrypt_block;

verus! {

/// The block function the key selects: a 16-byte key runs the 128-bit-key
/// cipher, a 32-byte key the 256-bit-key cipher.
pub open spec fn aes_for_key(key: Seq<u8>, block: Seq<u8>) -> Seq<u8> {
    if key.len() == 16 {
        aes128_block_of(key, block)
    } else {
        aes256_block_of(key, block)
    }
}

/// The counter's modulus: it wraps at 2^128.
pub open spec fn ctr_modulus() -> nat {
    pow256(16)
}

/// The counter value `k` blocks after `c`.
pub open spec fn ctr_at(c: nat, k: nat) -> nat {
    (c + k) % ctr_modulus()
}

/// The keystream byte at absolute offset `p` from counter `c`: byte `p % 16`
/// of the encrypted counter block `p / 16` blocks along.
pub open spec fn keystream_byte(key: Seq<u8>, c: nat, p: nat) -> u8 {
    aes_for_key(key, be_bytes(ctr_at(c, p / 16), 16))[(p % 16) as int]
}

/// `data` XORed with the keystream starting at counter `c`, offset `pos`.
pub open spec fn ctr_xor(key: Seq<u8>, c: nat, pos: nat, data: Seq<u8>) -> Seq<u8> {
    Seq::new(data.len(), |i: int| data[i] ^ keystream_byte(key, c, (pos + i) as nat))
}

proof fn lemma_modulus_large()
    ensures
        ctr_modulus() > 256,
{
    assert(ctr_modulus() == pow256(16));
    assert(pow256(16) == 256 * pow256(15));
    assert(pow256(15) == 256 * pow256(14));
    crate::bytes::lemma_pow256_pos(14);
}

/// One direction's stream-cipher state.
#[derive(Debug)]
pub struct CtrCipher {
    /// The cipher key: 16 or 32 bytes.
    pub key: Vec<u8>,
    /// The counter of the block the keystream currently stands in.
    pub counter: u128,
    /// The offset inside that block: the next keystream byte used.
    pub pos: usize,
}

/// 2^128 as a counter bound; the counter wraps past it.
proof fn lemma_modulus_value()
    ensures
        ctr_modulus() == 0x100000000000000000000000000000000,
{
    reveal_with_fuel(pow256, 17);
}

/// Increments a counter, wrapping at 2^128.
fn wrap_inc(c: u128) -> (r: u128)
    ensures
        r as nat == (c as nat + 1) % ctr_modulus(),
{
    proof {
        lemma_modulus_value();
    }
    if c == u128::MAX {
        proof {
            vstd::arithmetic::div_mod::lemma_mod_self_0(ctr_modulus() as int);
        }
        0
    } else {
        proof {
            vstd::arithmetic::div_mod::lemma_small_mod((c + 1) as nat, ctr_modulus());
        }
        c + 1
    }
}

/// Writes a counter as its 16 big-endian bytes.
fn u128_to_be(c: u128) -> (r: Vec<u8>)
    ensures
        r@ == be_bytes(c as nat, 16),
        r.len() == 16,
{
    let mut tmp: Vec<u8> = Vec::new();
    let mut x: u128 = c;
    let mut j: usize = 0;
    proof {
        assert(pow256(0) == 1);
        assert(c as nat / pow256(0) == c as nat);
    }
    while j < 16
        invariant
            j <= 16,
            tmp.len() == j,
            x as nat == c as nat / pow256(j as nat),
            forall|i: int| 0 <= i < j ==> tmp@[i] == ((c as nat / pow256(i as nat)) % 256) as u8,
        decreases 16 - j,
    {
        tmp.push((x % 256) as u8);
        proof {
            crate::bytes::lemma_pow256_pos(j as nat);
            vstd::arithmetic::div_mod::lemma_div_denominator(
                c as int,
                pow256(j as nat) as int,
                256,
            );
            assert(pow256((j + 1) as nat) == 256 * pow256(j as nat));
        }
        x = x / 256;
        j += 1;
    }
    let mut r: Vec<u8> = Vec::new();
    let mut k: usize = 0;
    while k < 16
        invariant
            k <= 16,
            r.len() == k,
            tmp.len() == 16,
            forall|i: int| 0 <= i < 16 ==> tmp@[i] == ((c as nat / pow256(i as nat)) % 256) as u8,
            forall|i: int| 0 <= i < k ==> r@[i] == be_bytes(c as nat, 16)[i],
        decreases 16 - k,
    {
        r.push(tmp[15 - k]);
        k += 1;
    }
    assert(r@ =~= be_bytes(c as nat, 16));
    r
}

/// Reads 16 big-endian bytes as a counter.
fn from_be16(v: &Vec<u8>) -> (r: u128)
    requires
        v.len() == 16,
    ensures
        r as nat == be_val(v@),
{
    let mut x: u128 = 0;
    let mut i: usize = 0;
    while i < 16
        invariant
            i <= 16,
            v.len() == 16,
            x as nat == be_val(v@.take(i as int)),
            (x as nat) < pow256(i as nat),
        decreases 16 - i,
    {
        proof {
            lemma_pow256_mono(i as nat, 15);
            reveal_with_fuel(pow256, 17);
            assert(v@.take(i + 1).drop_last() =~= v@.take(i as int));
            lemma_be_val_bound(v@.take(i + 1));
        }
        x = x * 256 + (v[i] as u128);
        i += 1;
    }
    assert(v@.take(16) =~= v@);
    x
}

proof fn lemma_pow256_mono(a: nat, b: nat)
    requires
        a <= b,
    ensures
        pow256(a) <= pow256(b),
    decreases b,
{
    if a < b {
        lemma_pow256_mono(a, (b - 1) as nat);
        crate::bytes::lemma_pow256_pos((b - 1) as nat);
    }
}

/// The encrypted counter block: the 16 keystream bytes of block `counter`.
fn block_for(key: &Vec<u8>, counter: u128) -> (r: Vec<u8>)
    requires
        key.len() == 16 || key.len() == 32,
    ensures
        r@ == aes_for_key(key@, be_bytes(counter as nat, 16)),
        r.len() == 16,
{
    let cb = u128_to_be(counter);
    if key.len() == 16 {
        aes128_encrypt_block(key, &cb)
    } else {
        aes256_encrypt_block(key, &cb)
    }
}

impl CtrCipher {
    /// The structural invariant: a real key width, an in-block offset.
    pub open spec fn wf(&self) -> bool {
        (self.key.len() == 16 || self.key.len() == 32) && self.pos < 16
    }

    /// A cipher whose counter starts at the value of a 16-byte IV.
    pub fn new(key: Vec<u8>, iv: &Vec<u8>) -> (r: Self)
        requires
            key.len() == 16 || key.len() == 32,
            iv.len() == 16,
        ensures
            r.key@ == key@,
            r.counter as nat == be_val(iv@),
            r.pos == 0,
            r.wf(),
    {
        let counter = from_be16(iv);
        CtrCipher { key, counter, pos: 0 }
    }

    /// A cipher whose counter starts at zero, as the established session's
    /// directions do.
    pub fn new_zero(key: Vec<u8>) -> (r: Self)
        requires
            key.len() == 16 || key.len() == 32,
        ensures
            r.key@ == key@,
            r.counter == 0,
            r.pos == 0,
            r.wf(),
    {
        CtrCipher { key, counter: 0, pos: 0 }
    }

    /// XORs `data` with the keystream and advances the position. Encrypting
    /// and decrypting are the same operation.
    pub fn apply(&mut self, data: &Vec<u8>) -> (r: Vec<u8>)
        requires
            old(self).wf(),
        ensures
            final(self).key@ == old(self).key@,
            r@ == ctr_xor(old(self).key@, old(self).counter as nat, old(self).pos as nat, data@),
            r.len() == data.len(),
            final(self).counter as nat == ctr_at(
                old(self).counter as nat,
                (old(self).pos + data@.len()) as nat / 16,
            ),
            final(self).pos as nat == (old(self).pos + data@.len()) as nat % 16,
            final(self).wf(),
    {
        let ghost oc = old(self).counter as nat;
        let ghost op = old(self).pos as nat;
        proof {
            lemma_modulus_large();
            lemma_modulus_value();
            vstd::arithmetic::div_mod::lemma_small_mod(oc, ctr_modulus());
            assert(op / 16 == 0 && op % 16 == op);
        }
        let mut out: Vec<u8> = Vec::new();
        let mut ksblock: Vec<u8> = block_for(&self.key, self.counter);
        let mut i: usize = 0;
        while i < data.len()
            invariant
                i <= data.len(),
                out.len() == i,
                self.key@ == old(self).key@,
                self.wf(),
                oc == old(self).counter as nat,
                op == old(self).pos as nat,
                op < 16,
                self.counter as nat == ctr_at(oc, ((op + i) / 16) as nat),
                self.pos as nat == ((op + i) % 16) as nat,
                ksblock@ == aes_for_key(self.key@, be_bytes(self.counter as nat, 16)),
                ksblock.len() == 16,
                forall|j: int|
                    0 <= j < i ==> out@[j] == (data@[j] ^ keystream_byte(
                        old(self).key@,
                        oc,
                        (op + j) as nat,
                    )),
            decreases data.len() - i,
        {
            out.push(data[i] ^ ksblock[self.pos]);
            let ghost t: nat = (op + i) as nat;
            proof {
                assert(keystream_byte(self.key@, oc, t) == aes_for_key(
                    self.key@,
                    be_bytes(ctr_at(oc, t / 16), 16),
                )[(t % 16) as int]);
            }
            self.pos += 1;
            if self.pos == 16 {
                proof {
                    assert(t % 16 == 15);
                    lemma_step_block(oc, t);
                }
                self.counter = wrap_inc(self.counter);
                self.pos = 0;
                ksblock = block_for(&self.key, self.counter);
            } else {
                proof {
                    assert(t % 16 < 15);
                    lemma_step_in_block(t);
                }
            }
            i += 1;
        }
        assert(out@ =~= ctr_xor(old(self).key@, oc, op, data@));
        out
    }
}

/// Applying the same keystream twice gives the data back.
pub proof fn lemma_ctr_xor_involution(key: Seq<u8>, c: nat, pos: nat, data: Seq<u8>)
    ensures
        ctr_xor(key, c, pos, ctr_xor(key, c, pos, data)) == data,
{
    let once = ctr_xor(key, c, pos, data);
    let twice = ctr_xor(key, c, pos, once);
    assert forall|i: int| 0 <= i < data.len() implies twice[i] == data[i] by {
        let k = keystream_byte(key, c, (pos + i) as nat);
        let x = data[i];
        assert((x ^ k) ^ k == x) by (bit_vector);
    }
    assert(twice =~= data);
}

/// Stepping one byte inside a block keeps the counter.
proof fn lemma_step_in_block(t: nat)
    requires
        t % 16 < 15,
    ensures
        (t + 1) / 16 == t / 16,
        (t + 1) % 16 == t % 16 + 1,
{
    assert(t == 16 * (t / 16) + t % 16) by {
        vstd::arithmetic::div_mod::lemma_fundamental_div_mod(t as int, 16);
    };
    vstd::arithmetic::div_mod::lemma_fundamental_div_mod_converse(
        (t + 1) as int,
        16,
        (t / 16) as int,
        (t % 16 + 1) as int,
    );
}

/// Stepping one byte past the end of a block moves to the next counter.
proof fn lemma_step_block(oc: nat, t: nat)
    requires
        t % 16 == 15,
    ensures
        (t + 1) / 16 == t / 16 + 1,
        (t + 1) % 16 == 0,
        ctr_at(oc, (t / 16 + 1) as nat) == (ctr_at(oc, t / 16) + 1) % ctr_modulus(),
{
    assert(t == 16 * (t / 16) + 15) by {
        vstd::arithmetic::div_mod::lemma_fundamental_div_mod(t as int, 16);
    };
    assert((t + 1) == 16 * (t / 16 + 1));
    assert((t + 1) / 16 == t / 16 + 1 && (t + 1) % 16 == 0) by {
        vstd::arithmetic::div_mod::lemma_fundamental_div_mod_converse(
            (t + 1) as int,
            16,
            (t / 16 + 1) as int,
            0,
        );
    };
    lemma_modulus_large();
    assert(1nat % ctr_modulus() == 1) by {
        vstd::arithmetic::div_mod::lemma_small_mod(1nat, ctr_modulus());
    };
    assert(((oc + t / 16) % ctr_modulus() + 1nat % ctr_modulus()) % ctr_modulus() == (oc + t / 16
        + 1) % ctr_modulus()) by {
        vstd::arithmetic::div_mod::lemma_add_mod_noop(
            (oc + t / 16) as int,
            1,
            ctr_modulus() as int,
        );
    };
}

} // verus!
