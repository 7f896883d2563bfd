//! The structured variable-length encoding of handshake payloads: a flat
//! list of byte strings, each prefixed by its two-byte big-endian length.
//! Parsers accept any well-formed list, so a payload may carry more fields
//! than a reader needs — the forward-compatibility rule of the handshake.

use vstd::prelude::*;

use crate::bytes::be_bytes;
use crate::bytes::be_val;
use crate::bytes::pow256;
use crate::bytes::be2_of;
use crate::bytes::read_be2;
use crate::bytes::append_bytes;

verus! {

/// The byte-string views of a list of owned fields.
pub open spec fn deep_view(fs: Seq<Vec<u8>>) -> Seq<Seq<u8>> {
    fs.map_values(|v: Vec<u8>| v@)
}

/// One encoded field: its two-byte big-endian length, then its bytes.
pub open spec fn encode_field(f: Seq<u8>) -> Seq<u8> {
    be_bytes(f.len(), 2) + f
}

/// The encoding of a whole field list: the fields in order.
pub open spec fn encode_fields_spec(fs: Seq<Seq<u8>>) -> Seq<u8>
    decreases fs.len(),
{
    if fs.len() == 0 {
        Seq::empty()
    } else {
        encode_field(fs.first()) + encode_fields_spec(fs.drop_first())
    }
}

/// The unique field list a byte string encodes, or `None` when the bytes are
/// not a well-formed list: a truncated length prefix, or a field running
/// past the end.
pub open spec fn parse_fields_spec(s: Seq<u8>) -> Option<Seq<Seq<u8>>>
    decreases s.len(),
{
    if s.len() == 0 {
        Some(Seq::empty())
    } else if s.len() < 2 {
        None
    } else {
        let l = be_val(s.take(2)) as int;
        if 2 + l > s.len() {
            None
        } else {
            match parse_fields_spec(s.skip(2 + l)) {
                None => None,
                Some(fs) => Some(seq![s.subrange(2, 2 + l)] + fs),
            }
        }
    }
}

/// Appending a field to the list appends its encoding to the bytes.
pub proof fn lemma_encode_push(fs: Seq<Seq<u8>>, f: Seq<u8>)
    ensures
        encode_fields_spec(fs.push(f)) == encode_fields_spec(fs) + encode_field(f),
    decreases fs.len(),
{
    if fs.len() == 0 {
        assert(fs.push(f).drop_first() =~= Seq::<Seq<u8>>::empty());
        assert(fs.push(f).first() == f);
        assert(encode_fields_spec(fs.push(f)) == encode_field(f) + encode_fields_spec(
            Seq::<Seq<u8>>::empty(),
        ));
        assert(encode_field(f) + Seq::<u8>::empty() =~= encode_field(f));
        assert(encode_fields_spec(fs) + encode_field(f) =~= encode_field(f));
    } else {
        assert(fs.push(f).drop_first() =~= fs.drop_first().push(f));
        lemma_encode_push(fs.drop_first(), f);
        assert(encode_fields_spec(fs.push(f)) == encode_field(fs.first()) + (encode_fields_spec(
            fs.drop_first(),
        ) + encode_field(f)));
        assert(encode_field(fs.first()) + (encode_fields_spec(fs.drop_first()) + encode_field(f))
            =~= (encode_field(fs.first()) + encode_fields_spec(fs.drop_first())) + encode_field(f));
    }
}

/// Encodes a list of fields.
pub fn encode_fields(fields: &Vec<Vec<u8>>) -> (r: Vec<u8>)
    requires
        forall|i: int| 0 <= i < fields.len() ==> #[trigger] fields@[i].len() < 65536,
    ensures
        r@ == encode_fields_spec(deep_view(fields@)),
{
    let mut r: Vec<u8> = Vec::new();
    let mut i: usize = 0;
    while i < fields.len()
        invariant
            i <= fields.len(),
            forall|k: int| 0 <= k < fields.len() ==> #[trigger] fields@[k].len() < 65536,
            r@ == encode_fields_spec(deep_view(fields@.take(i as int))),
        decreases fields.len() - i,
    {
        let f = &fields[i];
        let pre = be2_of(f.len() as u16);
        append_bytes(&mut r, &pre);
        append_bytes(&mut r, f);
        proof {
            lemma_encode_push(deep_view(fields@.take(i as int)), f@);
            assert(deep_view(fields@.take(i + 1)) =~= deep_view(fields@.take(i as int)).push(f@));
            assert(r@ =~= encode_fields_spec(deep_view(fields@.take(i as int))) + encode_field(f@));
        }
        i += 1;
    }
    assert(fields@.take(fields.len() as int) =~= fields@);
    r
}

/// Parses a byte string back into its field list; `None` exactly on inputs
/// that encode no list.
pub fn parse_fields(bytes: &Vec<u8>) -> (r: Option<Vec<Vec<u8>>>)
    ensures
        (r is Some) <==> (parse_fields_spec(bytes@) is Some),
        r matches Some(v) ==> Some(deep_view(v@)) == parse_fields_spec(bytes@),
{
    let mut acc: Vec<Vec<u8>> = Vec::new();
    let mut off: usize = 0;
    proof {
        assert(bytes@.skip(0) =~= bytes@);
        assert(deep_view(acc@) =~= Seq::<Seq<u8>>::empty());
        assert forall|fs: Seq<Seq<u8>>|
            parse_fields_spec(bytes@.skip(0)) == Some(fs) implies parse_fields_spec(bytes@)
            == Some(deep_view(acc@) + fs) by {
            assert(deep_view(acc@) + fs =~= fs);
        }
    }
    while off < bytes.len()
        invariant
            off <= bytes.len(),
            (parse_fields_spec(bytes@) is Some) <==> (parse_fields_spec(
                bytes@.skip(off as int),
            ) is Some),
            forall|fs: Seq<Seq<u8>>|
                parse_fields_spec(bytes@.skip(off as int)) == Some(fs) ==> parse_fields_spec(
                    bytes@,
                ) == Some(deep_view(acc@) + fs),
        decreases bytes.len() - off,
    {
        let ghost rest = bytes@.skip(off as int);
        if bytes.len() - off < 2 {
            assert(parse_fields_spec(rest) is None);
            return None;
        }
        let l = read_be2(bytes, off) as usize;
        proof {
            assert(rest.take(2) =~= bytes@.subrange(off as int, off + 2));
        }
        if l > bytes.len() - off - 2 {
            assert(parse_fields_spec(rest) is None);
            return None;
        }
        let mut field: Vec<u8> = Vec::new();
        let mut k: usize = 0;
        while k < l
            invariant
                k <= l,
                off + 2 + l <= bytes.len(),
                field.len() == k,
                forall|j: int| 0 <= j < k ==> field@[j] == bytes@[off + 2 + j],
            decreases l - k,
        {
            field.push(bytes[off + 2 + k]);
            k += 1;
        }
        proof {
            assert(field@ =~= rest.subrange(2, 2 + l as int));
            assert(rest.skip(2 + l as int) =~= bytes@.skip(off + 2 + l as int));
            assert(parse_fields_spec(rest) matches Some(fs) ==> parse_fields_spec(rest.skip(
                2 + l as int,
            )) matches Some(fs2) && fs == seq![rest.subrange(2, 2 + l as int)] + fs2);
        }
        let ghost old_acc = acc@;
        acc.push(field);
        proof {
            assert(deep_view(acc@) =~= deep_view(old_acc).push(field@));
            assert forall|fs: Seq<Seq<u8>>|
                parse_fields_spec(bytes@.skip((off + 2 + l) as int)) == Some(fs)
                implies parse_fields_spec(bytes@) == Some(deep_view(acc@) + fs) by {
                assert(parse_fields_spec(rest) == Some(seq![field@] + fs));
                assert(deep_view(old_acc) + (seq![field@] + fs) =~= deep_view(acc@) + fs);
            }
        }
        off = off + 2 + l;
    }
    proof {
        assert(bytes@.skip(off as int) =~= Seq::<u8>::empty());
        assert(parse_fields_spec(bytes@.skip(off as int)) == Some(Seq::<Seq<u8>>::empty()));
        assert(deep_view(acc@) + Seq::<Seq<u8>>::empty() =~= deep_view(acc@));
    }
    Some(acc)
}

/// Parsing inverts encoding.
pub proof fn lemma_parse_encode(fs: Seq<Seq<u8>>)
    requires
        forall|i: int| 0 <= i < fs.len() ==> #[trigger] fs[i].len() < 65536,
    ensures
        parse_fields_spec(encode_fields_spec(fs)) == Some(fs),
    decreases fs.len(),
{
    if fs.len() == 0 {
    } else {
        let s = encode_fields_spec(fs);
        let f = fs.first();
        lemma_parse_encode(fs.drop_first());
        assert(s == (be_bytes(f.len(), 2) + f) + encode_fields_spec(fs.drop_first()));
        crate::bytes::lemma_be_val_be_bytes(f.len(), 2);
        assert(pow256(2) == 65536) by {
            assert(pow256(0) == 1);
            assert(pow256(1) == 256);
        };
        vstd::arithmetic::div_mod::lemma_small_mod(f.len(), 65536);
        assert(s.take(2) =~= be_bytes(f.len(), 2));
        assert(be_val(s.take(2)) == f.len());
        assert(s.len() >= 2 + f.len());
        assert(s.subrange(2, 2 + f.len() as int) =~= f);
        assert(s.skip(2 + f.len() as int) =~= encode_fields_spec(fs.drop_first()));
        assert(seq![f] + fs.drop_first() =~= fs);
    }
}

} // verus!
