//! Byte-sequence primitives shared by the whole protocol: XOR, big-endian
//! integer encoding, zero padding and constant-time comparison, together with
//! the spec-level models the contracts are written over.

use vstd::prelude::*;

verus! {

/// 256 to the power `n`; the radix of the big-endian encodings below.
pub open spec fn pow256(n: nat) -> nat
    decreases n,
{
    if n == 0 {
        1
    } else {
        256 * pow256((n - 1) as nat)
    }
}

pub proof fn lemma_pow256_pos(n: nat)
    ensures
        pow256(n) >= 1,
    decreases n,
{
    if n > 0 {
        lemma_pow256_pos((n - 1) as nat);
    }
}

/// The `len`-byte big-endian encoding of `n % pow256(len)`.
pub open spec fn be_bytes(n: nat, len: nat) -> Seq<u8> {
    Seq::new(len, |i: int| ((n / pow256((len - 1 - i) as nat)) % 256) as u8)
}

/// The value of a big-endian byte string.
pub open spec fn be_val(s: Seq<u8>) -> nat
    decreases s.len(),
{
    if s.len() == 0 {
        0
    } else {
        be_val(s.drop_last()) * 256 + s.last() as nat
    }
}

pub proof fn lemma_be_val_bound(s: Seq<u8>)
    ensures
        be_val(s) < pow256(s.len()),
    decreases s.len(),
{
    if s.len() == 0 {
    } else {
        lemma_be_val_bound(s.drop_last());
        assert(be_val(s.drop_last()) <= pow256((s.len() - 1) as nat) - 1);
        assert(pow256(s.len()) == 256 * pow256((s.len() - 1) as nat));
    }
}

/// Byte-wise XOR of two equal-length sequences.
pub open spec fn xor_seq(a: Seq<u8>, b: Seq<u8>) -> Seq<u8> {
    Seq::new(a.len(), |i: int| a[i] ^ b[i])
}

/// A run of `n` zero bytes.
pub open spec fn zeros(n: nat) -> Seq<u8> {
    Seq::new(n, |i: int| 0u8)
}

/// The first 16 bytes of a sequence, total even on shorter models.
pub open spec fn low16(s: Seq<u8>) -> Seq<u8> {
    Seq::new(16, |i: int| s[i])
}

/// An owned copy of the bytes from `a` (inclusive) to `b` (exclusive).
pub fn copy_range(v: &Vec<u8>, a: usize, b: usize) -> (r: Vec<u8>)
    requires
        a <= b <= v.len(),
    ensures
        r@ == v@.subrange(a as int, b as int),
{
    let mut r: Vec<u8> = Vec::new();
    let mut i: usize = a;
    while i < b
        invariant
            a <= i <= b <= v.len(),
            r.len() == i - a,
            forall|j: int| 0 <= j < i - a ==> r@[j] == v@[a + j],
        decreases b - i,
    {
        r.push(v[i]);
        i += 1;
    }
    assert(r@ =~= v@.subrange(a as int, b as int));
    r
}

/// An owned copy of a byte vector.
pub fn copy_bytes(v: &Vec<u8>) -> (r: Vec<u8>)
    ensures
        r@ == v@,
{
    let mut r: Vec<u8> = Vec::new();
    let mut i: usize = 0;
    while i < v.len()
        invariant
            i <= v.len(),
            r@ =~= v@.take(i as int),
        decreases v.len() - i,
    {
        r.push(v[i]);
        i += 1;
    }
    assert(r@ =~= v@);
    r
}

/// Appends all of `src` to `dst`.
pub fn append_bytes(dst: &mut Vec<u8>, src: &Vec<u8>)
    ensures
        final(dst)@ == old(dst)@ + src@,
{
    let mut i: usize = 0;
    while i < src.len()
        invariant
            i <= src.len(),
            dst@ =~= old(dst)@ + src@.take(i as int),
        decreases src.len() - i,
    {
        dst.push(src[i]);
        assert(dst@ =~= old(dst)@ + src@.take(i + 1));
        i += 1;
    }
    assert(dst@ =~= old(dst)@ + src@);
}

pub fn xor_bytes(a: &Vec<u8>, b: &Vec<u8>) -> (r: Vec<u8>)
    requires
        a.len() == b.len(),
    ensures
        r@ == xor_seq(a@, b@),
{
    let mut r: Vec<u8> = Vec::new();
    let mut i: usize = 0;
    while i < a.len()
        invariant
            i <= a.len(),
            b.len() == a.len(),
            r.len() == i,
            forall|j: int| 0 <= j < i ==> r@[j] == (a@[j] ^ b@[j]),
        decreases a.len() - i,
    {
        r.push(a[i] ^ b[i]);
        i += 1;
    }
    assert(r@ =~= xor_seq(a@, b@));
    r
}

/// Compares two equal-length byte strings without data-dependent branching.
pub fn ct_eq(a: &Vec<u8>, b: &Vec<u8>) -> (r: bool)
    requires
        a.len() == b.len(),
    ensures
        r == (a@ == b@),
{
    let mut diff: u8 = 0;
    let mut i: usize = 0;
    while i < a.len()
        invariant
            i <= a.len(),
            b.len() == a.len(),
            (diff == 0) <==> (forall|j: int| 0 <= j < i ==> a@[j] == b@[j]),
        decreases a.len() - i,
    {
        let x = a[i];
        let y = b[i];
        let d = diff;
        diff = diff | (x ^ y);
        proof {
            assert(((d | (x ^ y)) == 0) <==> (d == 0 && x == y)) by (bit_vector);
        }
        i += 1;
    }
    if diff == 0 {
        assert(a@ =~= b@);
        true
    } else {
        false
    }
}

/// Appends zero bytes up to the next 16-byte boundary.
pub open spec fn pad16(s: Seq<u8>) -> Seq<u8> {
    s + zeros(((16 - s.len() % 16) % 16) as nat)
}

pub fn zero_pad16(v: &Vec<u8>) -> (r: Vec<u8>)
    ensures
        r@ == pad16(v@),
        r.len() % 16 == 0,
        r.len() < v.len() + 16,
{
    let mut r: Vec<u8> = Vec::new();
    let mut i: usize = 0;
    while i < v.len()
        invariant
            i <= v.len(),
            r@ =~= v@.take(i as int),
        decreases v.len() - i,
    {
        r.push(v[i]);
        i += 1;
    }
    assert(r@ =~= v@);
    let pad = (16 - v.len() % 16) % 16;
    let mut k: usize = 0;
    while k < pad
        invariant
            k <= pad,
            pad == (16 - v.len() % 16) % 16,
            r@ =~= v@ + zeros(k as nat),
        decreases pad - k,
    {
        r.push(0);
        assert(r@ =~= v@ + zeros((k + 1) as nat));
        k += 1;
    }
    assert(r@ =~= pad16(v@));
    r
}

/// Writes `n` as two big-endian bytes.
pub fn be2_of(n: u16) -> (r: Vec<u8>)
    ensures
        r@ == be_bytes(n as nat, 2),
        r.len() == 2,
{
    let mut r: Vec<u8> = Vec::new();
    r.push((n / 256) as u8);
    r.push((n % 256) as u8);
    proof {
        assert(pow256(0) == 1);
        assert(pow256(1) == 256);
        assert(r@[0] == be_bytes(n as nat, 2)[0]);
        assert(r@[1] == be_bytes(n as nat, 2)[1]);
        assert(r@ =~= be_bytes(n as nat, 2));
    }
    r
}

/// Reads two big-endian bytes at `off`.
pub fn read_be2(v: &Vec<u8>, off: usize) -> (r: u16)
    requires
        off + 2 <= v.len(),
    ensures
        r as nat == be_val(v@.subrange(off as int, off + 2)),
{
    let r = (v[off] as u16) * 256 + (v[off + 1] as u16);
    proof {
        let s = v@.subrange(off as int, off + 2);
        let s1 = v@.subrange(off as int, off + 1);
        assert(s.drop_last() =~= s1);
        assert(s1.drop_last() =~= Seq::<u8>::empty());
        assert(be_val(Seq::<u8>::empty()) == 0);
        assert(be_val(s1) == v@[off as int] as nat);
        assert(be_val(s) == be_val(s1) * 256 + v@[off + 1] as nat);
    }
    r
}

/// Writes `n` as three big-endian bytes.
pub fn be3_of(n: u32) -> (r: Vec<u8>)
    requires
        n < 0x1000000,
    ensures
        r@ == be_bytes(n as nat, 3),
        r.len() == 3,
{
    let mut r: Vec<u8> = Vec::new();
    r.push((n / 65536) as u8);
    r.push(((n / 256) % 256) as u8);
    r.push((n % 256) as u8);
    proof {
        assert(pow256(0) == 1);
        assert(pow256(1) == 256);
        assert(pow256(2) == 65536);
        assert(n as nat / pow256(0) == n as nat);
        assert(r@[0] == be_bytes(n as nat, 3)[0]);
        assert(r@[1] == be_bytes(n as nat, 3)[1]);
        assert(r@[2] == be_bytes(n as nat, 3)[2]);
        assert(r@ =~= be_bytes(n as nat, 3));
    }
    r
}

/// Reads three big-endian bytes at `off`.
pub fn read_be3(v: &Vec<u8>, off: usize) -> (r: u32)
    requires
        off + 3 <= v.len(),
    ensures
        r as nat == be_val(v@.subrange(off as int, off + 3)),
        r < 0x1000000,
{
    let r = (v[off] as u32) * 65536 + (v[off + 1] as u32) * 256 + (v[off + 2] as u32);
    proof {
        let s = v@.subrange(off as int, off + 3);
        let s2 = v@.subrange(off as int, off + 2);
        let s1 = v@.subrange(off as int, off + 1);
        assert(s.drop_last() =~= s2);
        assert(s2.drop_last() =~= s1);
        assert(s1.drop_last() =~= Seq::<u8>::empty());
        assert(be_val(Seq::<u8>::empty()) == 0);
        assert(be_val(s1) == v@[off as int] as nat);
        assert(be_val(s2) == be_val(s1) * 256 + v@[off + 1] as nat);
        assert(be_val(s) == be_val(s2) * 256 + v@[off + 2] as nat);
    }
    r
}

/// Decoding inverts encoding for values in range.
pub proof fn lemma_be_val_be_bytes(n: nat, len: nat)
    ensures
        be_val(be_bytes(n, len)) == n % pow256(len),
    decreases len,
{
    if len == 0 {
        assert(be_val(be_bytes(n, 0)) == 0);
        assert(n % 1 == 0) by {
            vstd::arithmetic::div_mod::lemma_mod_self_0(1int);
            vstd::arithmetic::div_mod::lemma_small_mod(0, 1);
        }
    } else {
        let l1 = (len - 1) as nat;
        lemma_be_val_be_bytes(n / 256, l1);
        assert forall|i: int| 0 <= i < l1 implies be_bytes(n, len).drop_last()[i] == be_bytes(
            n / 256,
            l1,
        )[i] by {
            lemma_pow256_pos((l1 - 1 - i) as nat);
            vstd::arithmetic::div_mod::lemma_div_denominator(
                n as int,
                256,
                pow256((l1 - 1 - i) as nat) as int,
            );
            assert(256 * pow256((l1 - 1 - i) as nat) == pow256((len - 1 - i) as nat));
        }
        assert(be_bytes(n, len).drop_last() =~= be_bytes(n / 256, l1));
        assert(pow256(0) == 1);
        assert(be_bytes(n, len).last() == ((n / pow256((len - 1 - (len - 1)) as nat)) % 256) as u8);
        assert((len - 1 - (len - 1)) as nat == 0);
        assert(n / pow256(0) == n);
        assert(be_bytes(n, len).last() == (n % 256) as u8);
        lemma_pow256_pos(l1);
        assert(be_val(be_bytes(n, len)) == ((n / 256) % pow256(l1)) * 256 + n % 256);
        vstd::arithmetic::div_mod::lemma_mod_breakdown(n as int, 256, pow256(l1) as int);
        assert(pow256(len) == 256 * pow256(l1));
    }
}

} // verus!
