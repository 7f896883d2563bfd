//! Counter-mode key derivation: expands a shared secret into keying material
//! of any length by hashing a 32-bit big-endian counter, the secret and a
//! context string per block, truncating the final block.

use vstd::prelude::*;

use crate::bytes::append_bytes;
use crate::bytes::be_bytes;
use crate::bytes::pow256;
use crate::crypto::sha256;
use crate::crypto::sha256_of;

verus! {

/// One derivation block: the hash of `counter ‖ secret ‖ context`, where the
/// counter is encoded as four big-endian bytes and starts at one.
pub open spec fn kdf_block(secret: Seq<u8>, ctx: Seq<u8>, ctr: nat) -> Seq<u8> {
    sha256_of(be_bytes(ctr, 4) + secret + ctx)
}

/// The first `n` bytes of the concatenated derivation blocks. Deterministic:
/// a pure function of secret, context and length.
pub open spec fn kdf_spec(secret: Seq<u8>, ctx: Seq<u8>, n: nat) -> Seq<u8> {
    Seq::new(n, |i: int| kdf_block(secret, ctx, (i / 32 + 1) as nat)[i % 32])
}

/// Writes `n` as four big-endian bytes (the low 32 bits of the counter).
fn be4_of(n: u64) -> (r: Vec<u8>)
    ensures
        r@ == be_bytes(n as nat, 4),
        r.len() == 4,
{
    let mut r: Vec<u8> = Vec::new();
    r.push(((n / 16777216) % 256) as u8);
    r.push(((n / 65536) % 256) as u8);
    r.push(((n / 256) % 256) as u8);
    r.push((n % 256) as u8);
    proof {
        assert(pow256(0) == 1);
        assert(pow256(1) == 256);
        assert(pow256(2) == 65536);
        assert(pow256(3) == 16777216);
        assert(n as nat / pow256(0) == n as nat);
        assert(r@[0] == be_bytes(n as nat, 4)[0]);
        assert(r@[1] == be_bytes(n as nat, 4)[1]);
        assert(r@[2] == be_bytes(n as nat, 4)[2]);
        assert(r@[3] == be_bytes(n as nat, 4)[3]);
        assert(r@ =~= be_bytes(n as nat, 4));
    }
    r
}

/// Expands `secret` under `ctx` into exactly `out_len` bytes of keystream.
///
/// Identical inputs always produce identical output: the result equals the
/// pure function `kdf_spec(secret@, ctx@, out_len)`.
pub fn expand(secret: &Vec<u8>, ctx: &Vec<u8>, out_len: usize) -> (r: Vec<u8>)
    ensures
        r@ == kdf_spec(secret@, ctx@, out_len as nat),
        r.len() == out_len,
{
    let mut blocks: Vec<u8> = Vec::new();
    let mut ctr: u64 = 1;
    while blocks.len() < out_len
        invariant
            blocks.len() % 32 == 0,
            blocks.len() < out_len + 32,
            ctr as nat == blocks.len() as nat / 32 + 1,
            forall|i: int|
                0 <= i < blocks.len() ==> blocks@[i] == kdf_block(
                    secret@,
                    ctx@,
                    (i / 32 + 1) as nat,
                )[i % 32],
        decreases out_len + 32 - blocks.len(),
    {
        let mut data: Vec<u8> = be4_of(ctr);
        append_bytes(&mut data, secret);
        append_bytes(&mut data, ctx);
        assert(data@ =~= be_bytes(ctr as nat, 4) + secret@ + ctx@);
        let d = sha256(&data);
        let ghost prev_len = blocks.len() as int;
        append_bytes(&mut blocks, &d);
        proof {
            assert forall|i: int| prev_len <= i < blocks.len() implies blocks@[i] == kdf_block(
                secret@,
                ctx@,
                (i / 32 + 1) as nat,
            )[i % 32] by {
                assert(blocks@[i] == d@[i - prev_len]);
                assert(i / 32 == prev_len / 32) by {
                    assert(prev_len % 32 == 0);
                    assert(prev_len <= i < prev_len + 32);
                };
                assert(d@ == kdf_block(secret@, ctx@, ctr as nat));
                assert(i % 32 == i - prev_len);
            }
        }
        ctr += 1;
    }
    let mut r: Vec<u8> = Vec::new();
    let mut j: usize = 0;
    while j < out_len
        invariant
            j <= out_len,
            out_len <= blocks.len(),
            r.len() == j,
            forall|i: int| 0 <= i < j ==> r@[i] == blocks@[i],
            forall|i: int|
                0 <= i < blocks.len() ==> blocks@[i] == kdf_block(
                    secret@,
                    ctx@,
                    (i / 32 + 1) as nat,
                )[i % 32],
        decreases out_len - j,
    {
        r.push(blocks[j]);
        j += 1;
    }
    assert(r@ =~= kdf_spec(secret@, ctx@, out_len as nat));
    r
}

} // verus!
