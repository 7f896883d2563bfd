//! The frame codec of an established session: a fixed-size encrypted header
//! declaring the body length, a padded encrypted body, each followed by its
//! own 16-byte tag from the direction's running MAC. The ingress and egress
//! halves of the secrets are independent; each is a strictly sequential
//! accumulator.

use vstd::prelude::*;

use crate::bytes::append_bytes;
use crate::bytes::be_bytes;
use crate::bytes::be_val;
use crate::bytes::ct_eq;
use crate::bytes::lemma_be_val_be_bytes;
use crate::bytes::pad16;
use crate::bytes::pow256;
use crate::bytes::read_be3;
use crate::bytes::be3_of;
use crate::bytes::zeros;
use crate::cipher::ctr_at;
use crate::cipher::ctr_xor;
use crate::cipher::CtrCipher;
use crate::errors::ECIESEerror;
use crate::mac::mac_digest_spec;
use crate::mac::mac_header_absorbed;
use crate::mac::MAC;

verus! {

/// The spec image of a stream cipher: key, counter, in-block offset.
pub type CipherModel = (Seq<u8>, nat, nat);

/// The spec image of a MAC chain: secret, absorbed bytes.
pub type MacModel = (Seq<u8>, Seq<u8>);

/// One direction of a session: its cipher and its MAC chain.
pub type DirModel = (CipherModel, MacModel);

pub open spec fn cipher_model(c: CtrCipher) -> CipherModel {
    (c.key@, c.counter as nat, c.pos as nat)
}

pub open spec fn mac_model(m: MAC) -> MacModel {
    (m.secret@, m.absorbed@)
}

/// The cipher after enciphering `n` more bytes.
pub open spec fn cipher_after(cm: CipherModel, n: nat) -> CipherModel {
    (cm.0, ctr_at(cm.1, (cm.2 + n) / 16), ((cm.2 + n) % 16) as nat)
}

/// What the cipher turns `data` into.
pub open spec fn cipher_out(cm: CipherModel, data: Seq<u8>) -> Seq<u8> {
    ctr_xor(cm.0, cm.1, cm.2, data)
}

/// The 16-byte plaintext header: the body length as three big-endian bytes,
/// zero-padded.
pub open spec fn header_plain(len: nat) -> Seq<u8> {
    be_bytes(len, 3) + zeros(13)
}

/// What writing one frame produces: the wire bytes and the direction state
/// after them.
pub open spec fn write_frame_spec(d: DirModel, payload: Seq<u8>) -> (Seq<u8>, DirModel) {
    let cm = d.0;
    let mm = d.1;
    let hct = cipher_out(cm, header_plain(payload.len()));
    let c1 = cipher_after(cm, 16);
    let abs1 = mac_header_absorbed(mm.0, mm.1, hct);
    let htag = mac_digest_spec(abs1);
    let body = pad16(payload);
    let bct = cipher_out(c1, body);
    let c2 = cipher_after(c1, body.len());
    let abs2 = abs1 + bct;
    let btag = mac_digest_spec(abs2);
    (hct + htag + bct + btag, (c2, (mm.0, abs2 + btag)))
}

/// What reading one frame yields: the payload or the error, and the
/// direction state after it. Tags are checked before anything is decrypted;
/// a mismatch leaves the offending bytes unread.
pub open spec fn read_frame_spec(d: DirModel, bytes: Seq<u8>) -> (Result<Seq<u8>, ECIESEerror>, DirModel) {
    let cm = d.0;
    let mm = d.1;
    if bytes.len() < 32 {
        (Err(ECIESEerror::TransportError), d)
    } else {
        let hct = bytes.take(16);
        let abs1 = mac_header_absorbed(mm.0, mm.1, hct);
        let htag = mac_digest_spec(abs1);
        if bytes.subrange(16, 32) != htag {
            (Err(ECIESEerror::TagCheckFailed), (cm, (mm.0, abs1)))
        } else {
            let hp = cipher_out(cm, hct);
            let c1 = cipher_after(cm, 16);
            let blen = be_val(hp.take(3));
            let padded = blen + ((16 - blen % 16) % 16);
            if bytes.len() != 48 + padded {
                (Err(ECIESEerror::TransportError), (c1, (mm.0, abs1)))
            } else {
                let bct = bytes.subrange(32, 32 + padded as int);
                let abs2 = abs1 + bct;
                let btag = mac_digest_spec(abs2);
                if bytes.skip(32 + padded as int) != btag {
                    (Err(ECIESEerror::TagCheckFailed), (c1, (mm.0, abs2)))
                } else {
                    let body = cipher_out(c1, bct);
                    (Ok(body.take(blen as int)), (cipher_after(c1, padded as nat), (mm.0, abs2 + btag)))
                }
            }
        }
    }
}

/// The secrets of an established connection: the cipher and MAC chain of
/// each direction, mutated in place as frames flow, never reset.
#[derive(Debug)]
pub struct Secrets {
    /// The session cipher key both directions use.
    pub aes_secret: Vec<u8>,
    /// The MAC secret both chains are keyed by.
    pub mac_secret: Vec<u8>,
    /// The cipher of the sending direction.
    pub egress_cipher: CtrCipher,
    /// The cipher of the receiving direction.
    pub ingress_cipher: CtrCipher,
    /// The MAC chain fed by every byte sent.
    pub egress_mac: MAC,
    /// The MAC chain fed by every byte received.
    pub ingress_mac: MAC,
}

impl Secrets {
    /// The structural invariant.
    pub open spec fn wf(&self) -> bool {
        &&& self.aes_secret.len() == 32
        &&& self.mac_secret.len() == 32
        &&& self.egress_cipher.wf()
        &&& self.ingress_cipher.wf()
        &&& self.egress_cipher.key@ == self.aes_secret@
        &&& self.ingress_cipher.key@ == self.aes_secret@
        &&& self.egress_mac.wf()
        &&& self.ingress_mac.wf()
        &&& self.egress_mac.secret@ == self.mac_secret@
        &&& self.ingress_mac.secret@ == self.mac_secret@
    }

    /// The sending direction's image.
    pub open spec fn egress_m(&self) -> DirModel {
        (cipher_model(self.egress_cipher), mac_model(self.egress_mac))
    }

    /// The receiving direction's image.
    pub open spec fn ingress_m(&self) -> DirModel {
        (cipher_model(self.ingress_cipher), mac_model(self.ingress_mac))
    }

    /// Encodes one payload as an encrypted, tagged frame and advances the
    /// egress direction over it.
    pub fn write_frame(&mut self, payload: &Vec<u8>) -> (r: Vec<u8>)
        requires
            old(self).wf(),
            payload.len() < 0x1000000,
        ensures
            final(self).wf(),
            r@ == write_frame_spec(old(self).egress_m(), payload@).0,
            final(self).egress_m() == write_frame_spec(old(self).egress_m(), payload@).1,
            final(self).ingress_m() == old(self).ingress_m(),
            final(self).aes_secret@ == old(self).aes_secret@,
            final(self).mac_secret@ == old(self).mac_secret@,
    {
        let mut header: Vec<u8> = be3_of(payload.len() as u32);
        let mut k: usize = 0;
        while k < 13
            invariant
                k <= 13,
                header@ =~= be_bytes(payload@.len(), 3) + zeros(k as nat),
            decreases 13 - k,
        {
            header.push(0);
            assert(header@ =~= be_bytes(payload@.len(), 3) + zeros((k + 1) as nat));
            k += 1;
        }
        assert(header@ =~= header_plain(payload@.len()));
        let hct = self.egress_cipher.apply(&header);
        let htag = self.egress_mac.update_header(&hct);
        let body = crate::bytes::zero_pad16(payload);
        let bct = self.egress_cipher.apply(&body);
        self.egress_mac.update(&bct);
        let btag = self.egress_mac.digest();
        self.egress_mac.update(&btag);
        let mut out: Vec<u8> = Vec::new();
        append_bytes(&mut out, &hct);
        append_bytes(&mut out, &htag);
        append_bytes(&mut out, &bct);
        append_bytes(&mut out, &btag);
        assert(out@ =~= hct@ + htag@ + bct@ + btag@);
        out
    }

    /// Decodes one frame, checking each tag before decrypting what it
    /// covers, and advances the ingress direction over it. `TagCheckFailed`
    /// on any mismatch; `TransportError` when the byte count cannot be a
    /// frame.
    pub fn read_frame(&mut self, bytes: &Vec<u8>) -> (r: Result<Vec<u8>, ECIESEerror>)
        requires
            old(self).wf(),
        ensures
            final(self).wf(),
            r matches Ok(v) ==> read_frame_spec(old(self).ingress_m(), bytes@).0 == Ok::<
                Seq<u8>,
                ECIESEerror,
            >(v@),
            r matches Err(e) ==> read_frame_spec(old(self).ingress_m(), bytes@).0 == Err::<
                Seq<u8>,
                ECIESEerror,
            >(e),
            final(self).ingress_m() == read_frame_spec(old(self).ingress_m(), bytes@).1,
            final(self).egress_m() == old(self).egress_m(),
            final(self).aes_secret@ == old(self).aes_secret@,
            final(self).mac_secret@ == old(self).mac_secret@,
    {
        if bytes.len() < 32 {
            return Err(ECIESEerror::TransportError);
        }
        let mut hct: Vec<u8> = Vec::new();
        let mut i: usize = 0;
        while i < 16
            invariant
                i <= 16,
                bytes.len() >= 32,
                hct.len() == i,
                forall|j: int| 0 <= j < i ==> hct@[j] == bytes@[j],
            decreases 16 - i,
        {
            hct.push(bytes[i]);
            i += 1;
        }
        assert(hct@ =~= bytes@.take(16));
        let mut htag_rx: Vec<u8> = Vec::new();
        let mut t: usize = 16;
        while t < 32
            invariant
                16 <= t <= 32,
                bytes.len() >= 32,
                htag_rx.len() == t - 16,
                forall|j: int| 0 <= j < t - 16 ==> htag_rx@[j] == bytes@[16 + j],
            decreases 32 - t,
        {
            htag_rx.push(bytes[t]);
            t += 1;
        }
        assert(htag_rx@ =~= bytes@.subrange(16, 32));
        let htag = self.ingress_mac.update_header(&hct);
        if !ct_eq(&htag, &htag_rx) {
            return Err(ECIESEerror::TagCheckFailed);
        }
        let hp = self.ingress_cipher.apply(&hct);
        let blen = read_be3(&hp, 0) as usize;
        proof {
            assert(hp@.subrange(0, 3) =~= hp@.take(3));
        }
        let padded = blen + (16 - blen % 16) % 16;
        if bytes.len() != 48 + padded {
            return Err(ECIESEerror::TransportError);
        }
        let mut bct: Vec<u8> = Vec::new();
        let mut b: usize = 32;
        while b < 32 + padded
            invariant
                32 <= b <= 32 + padded,
                bytes.len() == 48 + padded,
                bct.len() == b - 32,
                forall|j: int| 0 <= j < b - 32 ==> bct@[j] == bytes@[32 + j],
            decreases 32 + padded - b,
        {
            bct.push(bytes[b]);
            b += 1;
        }
        assert(bct@ =~= bytes@.subrange(32, 32 + padded as int));
        let mut btag_rx: Vec<u8> = Vec::new();
        let mut u: usize = 32 + padded;
        while u < bytes.len()
            invariant
                32 + padded <= u <= bytes.len(),
                bytes.len() == 48 + padded,
                btag_rx.len() == u - 32 - padded,
                forall|j: int| 0 <= j < u - 32 - padded ==> btag_rx@[j] == bytes@[32 + padded + j],
            decreases bytes.len() - u,
        {
            btag_rx.push(bytes[u]);
            u += 1;
        }
        assert(btag_rx@ =~= bytes@.skip(32 + padded as int));
        self.ingress_mac.update(&bct);
        let btag = self.ingress_mac.digest();
        if !ct_eq(&btag, &btag_rx) {
            return Err(ECIESEerror::TagCheckFailed);
        }
        self.ingress_mac.update(&btag);
        let body = self.ingress_cipher.apply(&bct);
        let mut payload: Vec<u8> = Vec::new();
        let mut p: usize = 0;
        while p < blen
            invariant
                p <= blen,
                body.len() == padded,
                blen <= padded,
                payload.len() == p,
                forall|j: int| 0 <= j < p ==> payload@[j] == body@[j],
            decreases blen - p,
        {
            payload.push(body[p]);
            p += 1;
        }
        assert(payload@ =~= body@.take(blen as int));
        Ok(payload)
    }
}

/// What writing a sequence of payloads produces: the frames in order, and
/// the direction state after all of them.
pub open spec fn write_stream_spec(d: DirModel, payloads: Seq<Seq<u8>>) -> (Seq<Seq<u8>>, DirModel)
    decreases payloads.len(),
{
    if payloads.len() == 0 {
        (Seq::empty(), d)
    } else {
        let first = write_frame_spec(d, payloads.first());
        let rest = write_stream_spec(first.1, payloads.drop_first());
        (seq![first.0] + rest.0, rest.1)
    }
}

/// What reading a sequence of frames yields: the payloads in order when
/// every frame is accepted, and the direction state after them.
pub open spec fn read_stream_spec(d: DirModel, frames: Seq<Seq<u8>>) -> (
    Option<Seq<Seq<u8>>>,
    DirModel,
)
    decreases frames.len(),
{
    if frames.len() == 0 {
        (Some(Seq::empty()), d)
    } else {
        let first = read_frame_spec(d, frames.first());
        match first.0 {
            Err(_) => (None, first.1),
            Ok(p) => {
                let rest = read_stream_spec(first.1, frames.drop_first());
                match rest.0 {
                    None => (None, rest.1),
                    Some(ps) => (Some(seq![p] + ps), rest.1),
                }
            }
        }
    }
}

/// A frame leaves the cipher on a block boundary relative to where it
/// started: header and padded body are both multiples of 16 bytes.
proof fn lemma_write_preserves_pos(d: DirModel, payload: Seq<u8>)
    requires
        d.0.2 < 16,
    ensures
        (write_frame_spec(d, payload).1).0.2 == d.0.2,
{
    let p = d.0.2;
    vstd::arithmetic::div_mod::lemma_small_mod(p, 16);
    vstd::arithmetic::div_mod::lemma_mod_multiples_vanish(1, p as int, 16);
    assert((p + 16) % 16 == p);
    let len = payload.len();
    let padded = pad16(payload).len();
    assert(padded == len + ((16 - len % 16) % 16));
    if len % 16 == 0 {
        assert(padded == len);
    } else {
        assert(padded == len + 16 - len % 16);
    }
    assert(padded % 16 == 0) by {
        vstd::arithmetic::div_mod::lemma_fundamental_div_mod(len as int, 16);
        if len % 16 == 0 {
            vstd::arithmetic::div_mod::lemma_mod_multiples_vanish((len / 16) as int, 0, 16);
        } else {
            assert(padded == 16 * ((len / 16) as int + 1));
            vstd::arithmetic::div_mod::lemma_mod_multiples_vanish((len / 16) as int + 1, 0, 16);
        }
    };
    assert((p + padded) % 16 == p) by {
        vstd::arithmetic::div_mod::lemma_fundamental_div_mod(padded as int, 16);
        assert(padded == 16 * ((padded / 16) as int));
        vstd::arithmetic::div_mod::lemma_mod_multiples_vanish(
            (padded / 16) as int,
            p as int,
            16,
        );
    };
}

/// Reading a whole written frame sequence gives the payloads back, and the
/// reading direction ends in exactly the writing direction's state: after N
/// matching frames the two MAC chains and ciphers agree.
pub proof fn lemma_frame_stream_roundtrip(d: DirModel, payloads: Seq<Seq<u8>>)
    requires
        d.0.2 < 16,
        forall|i: int| 0 <= i < payloads.len() ==> #[trigger] payloads[i].len() < 0x1000000,
    ensures
        read_stream_spec(d, write_stream_spec(d, payloads).0).0 == Some(payloads),
        read_stream_spec(d, write_stream_spec(d, payloads).0).1 == write_stream_spec(
            d,
            payloads,
        ).1,
    decreases payloads.len(),
{
    if payloads.len() == 0 {
        assert(write_stream_spec(d, payloads).0 =~= Seq::<Seq<u8>>::empty());
        assert(Seq::<Seq<u8>>::empty() =~= payloads);
    } else {
        let p0 = payloads.first();
        let first = write_frame_spec(d, p0);
        let rest = write_stream_spec(first.1, payloads.drop_first());
        let frames = write_stream_spec(d, payloads).0;
        assert(frames == seq![first.0] + rest.0);
        assert(frames.first() == first.0);
        assert(frames.drop_first() =~= rest.0);
        assert(p0.len() < 0x1000000);
        lemma_frame_roundtrip(d, p0);
        lemma_write_preserves_pos(d, p0);
        assert(forall|i: int|
            0 <= i < payloads.drop_first().len() ==> #[trigger] payloads.drop_first()[i].len()
                < 0x1000000);
        lemma_frame_stream_roundtrip(first.1, payloads.drop_first());
        assert(read_frame_spec(d, frames.first()).0 == Ok::<Seq<u8>, ECIESEerror>(p0));
        assert(read_frame_spec(d, frames.first()).1 == first.1);
        assert(read_stream_spec(first.1, rest.0).0 == Some(payloads.drop_first()));
        assert(seq![p0] + payloads.drop_first() =~= payloads);
    }
}

/// Reading what was written gives the payload back, and leaves the reading
/// direction in exactly the state of the writing direction: after matching
/// frame sequences the two MAC chains and ciphers agree.
pub proof fn lemma_frame_roundtrip(d: DirModel, payload: Seq<u8>)
    requires
        payload.len() < 0x1000000,
        d.0.2 < 16,
    ensures
        read_frame_spec(d, write_frame_spec(d, payload).0).0 == Ok::<Seq<u8>, ECIESEerror>(
            payload,
        ),
        read_frame_spec(d, write_frame_spec(d, payload).0).1 == write_frame_spec(d, payload).1,
{
    let cm = d.0;
    let mm = d.1;
    let hct = cipher_out(cm, header_plain(payload.len()));
    let c1 = cipher_after(cm, 16);
    let abs1 = mac_header_absorbed(mm.0, mm.1, hct);
    let htag = mac_digest_spec(abs1);
    let body = pad16(payload);
    let bct = cipher_out(c1, body);
    let abs2 = abs1 + bct;
    let btag = mac_digest_spec(abs2);
    let wire = hct + htag + bct + btag;
    assert(hct.len() == 16);
    assert(htag.len() == 16);
    assert(bct.len() == body.len());
    assert(btag.len() == 16);
    assert(body.len() == payload.len() + ((16 - payload.len() % 16) % 16));
    assert(wire.len() >= 32);
    assert(wire.take(16) =~= hct);
    assert(wire.subrange(16, 32) =~= htag);
    let hp = cipher_out(cm, hct);
    crate::cipher::lemma_ctr_xor_involution(cm.0, cm.1, cm.2, header_plain(payload.len()));
    assert(hp == header_plain(payload.len()));
    assert(hp.take(3) =~= be_bytes(payload.len(), 3));
    lemma_be_val_be_bytes(payload.len(), 3);
    assert(pow256(3) == 0x1000000) by {
        assert(pow256(0) == 1);
        assert(pow256(1) == 256);
        assert(pow256(2) == 65536);
    };
    vstd::arithmetic::div_mod::lemma_small_mod(payload.len(), 0x1000000);
    let blen = be_val(hp.take(3));
    assert(blen == payload.len());
    let padded = blen + ((16 - blen % 16) % 16);
    assert(padded == body.len());
    assert(wire.len() == 48 + padded);
    assert(wire.subrange(32, 32 + padded as int) =~= bct);
    assert(wire.skip(32 + padded as int) =~= btag);
    let rbody = cipher_out(c1, bct);
    crate::cipher::lemma_ctr_xor_involution(c1.0, c1.1, c1.2, body);
    assert(rbody == body);
    assert(body.take(blen as int) =~= payload);
}

} // verus!
