//! Laws of the packed-buffer codec: encoding then decoding returns the same
//! documents (up to the documented relationship-id normalization), a count
//! mismatch always fails, and a buffer truncated anywhere inside a frame
//! always fails.

use vstd::prelude::*;
use vstd::arithmetic::div_mod::{lemma_div_denominator, lemma_fundamental_div_mod};
use vstd::utf8::{decode_utf8, encode_utf8, valid_utf8};

use crate::codec::{
    MAX_FIELD, as_signed32, be32_value, doc_encodable, docs_encodable, lemma_encode_docs_first,
    spec_be32, spec_decode, spec_encode, spec_encode_doc, spec_encode_docs, spec_encode_lp,
    spec_read_be32, spec_read_block, spec_read_doc, spec_read_docs, spec_read_string,
    spec_rel_bytes,
};
use crate::embedded::DocView;

verus! {

/// Reading back the four big-endian bytes of a value gives the value.
pub proof fn lemma_be32_value_of(v: u32)
    ensures
        be32_value(spec_be32(v), 0) == v,
{
    let x = v as int;
    lemma_fundamental_div_mod(x, 0x100);
    lemma_fundamental_div_mod(x / 0x100, 0x100);
    lemma_fundamental_div_mod(x / 0x1_0000, 0x100);
    lemma_div_denominator(x, 0x100, 0x100);
    lemma_div_denominator(x, 0x1_0000, 0x100);
    assert(x / 0x100_0000 < 0x100) by (nonlinear_arith)
        requires
            0 <= x <= 0xffff_ffff,
    ;
    assert(x == 0x100_0000 * (x / 0x100_0000) + 0x1_0000 * ((x / 0x1_0000) % 0x100) + 0x100 * ((x
        / 0x100) % 0x100) + x % 0x100);
}

/// Where the four bytes at `pos` are the big-endian encoding of `v`, the
/// 32-bit read at `pos` returns `v`.
pub proof fn lemma_read_be32_at(b: Seq<u8>, pos: int, v: u32)
    requires
        0 <= pos,
        pos + 4 <= b.len(),
        b.subrange(pos, pos + 4) == spec_be32(v),
    ensures
        spec_read_be32(b, pos) == Some((v, pos + 4)),
{
    lemma_be32_value_of(v);
    assert(b[pos] == b.subrange(pos, pos + 4)[0]);
    assert(b[pos + 1] == b.subrange(pos, pos + 4)[1]);
    assert(b[pos + 2] == b.subrange(pos, pos + 4)[2]);
    assert(b[pos + 3] == b.subrange(pos, pos + 4)[3]);
}

/// Where the bytes at `pos` are a length-prefixed block, the block read at
/// `pos` returns its contents and ends right after them.
pub proof fn lemma_read_block_at(b: Seq<u8>, pos: int, bytes: Seq<u8>)
    requires
        0 <= pos,
        bytes.len() <= MAX_FIELD,
        pos + 4 + bytes.len() <= b.len(),
        b.subrange(pos, pos + 4 + bytes.len()) == spec_encode_lp(bytes),
    ensures
        spec_read_block(b, pos) == Some((bytes, pos + 4 + bytes.len())),
{
    let n = bytes.len() as int;
    let lp = spec_encode_lp(bytes);
    assert forall|i: int| 0 <= i < 4 implies #[trigger] (b.subrange(pos, pos + 4)[i]) == spec_be32(
        bytes.len() as u32,
    )[i] by {
        assert(b.subrange(pos, pos + 4 + n)[i] == lp[i]);
    }
    assert(b.subrange(pos, pos + 4) =~= spec_be32(bytes.len() as u32));
    lemma_read_be32_at(b, pos, bytes.len() as u32);
    assert(as_signed32(bytes.len() as u32) == n);
    assert forall|i: int| 0 <= i < n implies b.subrange(pos + 4, pos + 4 + n)[i] == bytes[i] by {
        assert(b.subrange(pos, pos + 4 + n)[i + 4] == lp[i + 4]);
    }
    assert(b.subrange(pos + 4, pos + 4 + n) =~= bytes);
}

/// Where the bytes at `pos` are a length-prefixed UTF-8 encoding of `s`, the
/// string read at `pos` returns `s`.
pub proof fn lemma_read_string_at(b: Seq<u8>, pos: int, s: Seq<char>)
    requires
        0 <= pos,
        encode_utf8(s).len() <= MAX_FIELD,
        pos + 4 + encode_utf8(s).len() <= b.len(),
        b.subrange(pos, pos + 4 + encode_utf8(s).len()) == spec_encode_lp(encode_utf8(s)),
    ensures
        spec_read_string(b, pos) == Some((s, pos + 4 + encode_utf8(s).len())),
{
    broadcast use vstd::utf8::encode_utf8_valid_utf8;
    broadcast use vstd::utf8::encode_utf8_decode_utf8;

    lemma_read_block_at(b, pos, encode_utf8(s));
}

/// A document as it comes back from a decode: an empty relationship id is
/// replaced by an absent one.  The wire format cannot distinguish the two;
/// this is the codec's one documented lossy case.
pub open spec fn normalize_doc(d: DocView) -> DocView {
    DocView {
        resource_name: d.resource_name,
        content_type: d.content_type,
        embedded_relationship_id: match d.embedded_relationship_id {
            Some(s) => if s.len() == 0 {
                None
            } else {
                Some(s)
            },
            None => None,
        },
        content: d.content,
    }
}

/// The normalization applied to each document of a sequence.
pub open spec fn normalize_docs(ds: Seq<DocView>) -> Seq<DocView> {
    ds.map_values(|d: DocView| normalize_doc(d))
}

/// Where the bytes at `pos` are an encoded document frame, the document read
/// at `pos` returns the document, normalized, and ends right after the frame.
pub proof fn lemma_read_doc_at(b: Seq<u8>, pos: int, d: DocView)
    requires
        0 <= pos,
        doc_encodable(d),
        pos + spec_encode_doc(d).len() <= b.len(),
        b.subrange(pos, pos + spec_encode_doc(d).len()) == spec_encode_doc(d),
    ensures
        spec_read_doc(b, pos) == Some((normalize_doc(d), pos + spec_encode_doc(d).len())),
{
    broadcast use vstd::utf8::encode_utf8_valid_utf8;
    broadcast use vstd::utf8::encode_utf8_decode_utf8;

    let enc = spec_encode_doc(d);
    let c1 = spec_encode_lp(encode_utf8(d.resource_name));
    let c2 = spec_encode_lp(encode_utf8(d.content_type));
    let c3 = spec_encode_lp(spec_rel_bytes(d));
    let c4 = spec_encode_lp(d.content);
    let p1 = pos + c1.len();
    let p2 = p1 + c2.len();
    let p3 = p2 + c3.len();
    let p4 = p3 + c4.len();
    assert forall|i: int| 0 <= i < c1.len() implies #[trigger] (b.subrange(pos, p1)[i]) == c1[i] by {
        assert(b.subrange(pos, pos + enc.len() as int)[i] == enc[i]);
    }
    assert(b.subrange(pos, p1) =~= c1);
    lemma_read_string_at(b, pos, d.resource_name);
    assert forall|i: int| 0 <= i < c2.len() implies #[trigger] (b.subrange(p1, p2)[i]) == c2[i] by {
        assert(b.subrange(pos, pos + enc.len() as int)[c1.len() + i] == enc[c1.len() + i]);
    }
    assert(b.subrange(p1, p2) =~= c2);
    lemma_read_string_at(b, p1, d.content_type);
    assert forall|i: int| 0 <= i < c3.len() implies #[trigger] (b.subrange(p2, p3)[i]) == c3[i] by {
        assert(b.subrange(pos, pos + enc.len() as int)[c1.len() + c2.len() + i] == enc[c1.len()
            + c2.len() + i]);
    }
    assert(b.subrange(p2, p3) =~= c3);
    let rel_chars: Seq<char> = match d.embedded_relationship_id {
        Some(s) => s,
        None => Seq::empty(),
    };
    assert(encode_utf8(Seq::<char>::empty()) =~= Seq::<u8>::empty());
    assert(spec_rel_bytes(d) == encode_utf8(rel_chars));
    lemma_read_string_at(b, p2, rel_chars);
    assert forall|i: int| 0 <= i < c4.len() implies #[trigger] (b.subrange(p3, p4)[i]) == c4[i] by {
        assert(b.subrange(pos, pos + enc.len() as int)[c1.len() + c2.len() + c3.len() + i]
            == enc[c1.len() + c2.len() + c3.len() + i]);
    }
    assert(b.subrange(p3, p4) =~= c4);
    lemma_read_block_at(b, p3, d.content);
}

/// Where the bytes at `pos` are the encoded frames of a document sequence,
/// reading that many documents returns the sequence, normalized, and ends
/// right after the frames.
pub proof fn lemma_read_docs_at(b: Seq<u8>, pos: int, ds: Seq<DocView>)
    requires
        0 <= pos,
        forall|i: int| 0 <= i < ds.len() ==> doc_encodable(#[trigger] ds[i]),
        pos + spec_encode_docs(ds).len() <= b.len(),
        b.subrange(pos, pos + spec_encode_docs(ds).len()) == spec_encode_docs(ds),
    ensures
        spec_read_docs(b, pos, ds.len()) == Some(
            (normalize_docs(ds), pos + spec_encode_docs(ds).len()),
        ),
    decreases ds.len(),
{
    let f = |x: DocView| spec_encode_doc(x);
    let g = |x: DocView| normalize_doc(x);
    if ds.len() == 0 {
        assert(ds.map_values(f) =~= Seq::<Seq<u8>>::empty());
        assert(Seq::<Seq<u8>>::empty().flatten() =~= Seq::<u8>::empty());
        assert(normalize_docs(ds) =~= Seq::<DocView>::empty());
    } else {
        lemma_encode_docs_first(ds);
        let enc = spec_encode_docs(ds);
        let c0 = spec_encode_doc(ds[0]);
        let rest = spec_encode_docs(ds.drop_first());
        let p1 = pos + c0.len();
        assert forall|i: int| 0 <= i < c0.len() implies #[trigger] (b.subrange(pos, p1)[i])
            == c0[i] by {
            assert(b.subrange(pos, pos + enc.len() as int)[i] == enc[i]);
        }
        assert(b.subrange(pos, p1) =~= c0);
        lemma_read_doc_at(b, pos, ds[0]);
        assert forall|i: int| 0 <= i < rest.len() implies #[trigger] (b.subrange(
            p1,
            p1 + rest.len(),
        )[i]) == rest[i] by {
            assert(b.subrange(pos, pos + enc.len() as int)[c0.len() + i] == enc[c0.len() + i]);
        }
        assert(b.subrange(p1, p1 + rest.len()) =~= rest);
        lemma_read_docs_at(b, p1, ds.drop_first());
        assert(normalize_docs(ds) =~= seq![normalize_doc(ds[0])] + normalize_docs(
            ds.drop_first(),
        ));
    }
}

/// Round trip: decoding an encoded document sequence, with the matching
/// expected count, succeeds and returns the same documents field for field,
/// except that an empty relationship id decodes as absent.
pub proof fn lemma_encode_decode_roundtrip(ds: Seq<DocView>)
    requires
        docs_encodable(ds),
    ensures
        spec_decode(spec_encode(ds), ds.len() as int) == Some(normalize_docs(ds)),
{
    let b = spec_encode(ds);
    let body = spec_encode_docs(ds);
    assert forall|i: int| 0 <= i < 4 implies #[trigger] (b.subrange(0, 4)[i]) == spec_be32(
        ds.len() as u32,
    )[i] by {
        assert(b[i] == spec_be32(ds.len() as u32)[i]);
    }
    assert(b.subrange(0, 4) =~= spec_be32(ds.len() as u32));
    lemma_read_be32_at(b, 0, ds.len() as u32);
    assert(as_signed32(ds.len() as u32) == ds.len() as int);
    assert forall|i: int| 0 <= i < body.len() implies #[trigger] (b.subrange(
        4,
        4 + body.len() as int,
    )[i]) == body[i] by {
        assert(b[4 + i] == body[i]);
    }
    assert(b.subrange(4, 4 + body.len() as int) =~= body);
    lemma_read_docs_at(b, 4, ds);
}

/// Truncating a buffer before the end of a 32-bit read makes the read fail;
/// truncating at or after its end leaves it unchanged.
pub proof fn lemma_read_be32_truncated(b: Seq<u8>, pos: int, j: int, v: u32, e: int)
    requires
        0 <= j <= b.len(),
        spec_read_be32(b, pos) == Some((v, e)),
    ensures
        j >= e ==> spec_read_be32(b.take(j), pos) == Some((v, e)),
        j < e ==> spec_read_be32(b.take(j), pos) is None,
{
    if j >= e {
        assert(b.take(j)[pos] == b[pos]);
        assert(b.take(j)[pos + 1] == b[pos + 1]);
        assert(b.take(j)[pos + 2] == b[pos + 2]);
        assert(b.take(j)[pos + 3] == b[pos + 3]);
    }
}

/// Truncating a buffer before the end of a block read makes the read fail;
/// truncating at or after its end leaves it unchanged.
pub proof fn lemma_read_block_truncated(b: Seq<u8>, pos: int, j: int, bytes: Seq<u8>, e: int)
    requires
        0 <= j <= b.len(),
        spec_read_block(b, pos) == Some((bytes, e)),
    ensures
        j >= e ==> spec_read_block(b.take(j), pos) == Some((bytes, e)),
        j < e ==> spec_read_block(b.take(j), pos) is None,
{
    match spec_read_be32(b, pos) {
        Some((lw, p)) => {
            lemma_read_be32_truncated(b, pos, j, lw, p);
            if j >= e {
                assert(b.take(j).subrange(p, e) =~= b.subrange(p, e));
            }
        },
        None => {},
    }
}

/// Truncating a buffer before the end of a string read makes the read fail;
/// truncating at or after its end leaves it unchanged.
pub proof fn lemma_read_string_truncated(b: Seq<u8>, pos: int, j: int, s: Seq<char>, e: int)
    requires
        0 <= j <= b.len(),
        spec_read_string(b, pos) == Some((s, e)),
    ensures
        j >= e ==> spec_read_string(b.take(j), pos) == Some((s, e)),
        j < e ==> spec_read_string(b.take(j), pos) is None,
{
    match spec_read_block(b, pos) {
        Some((bytes, p)) => {
            lemma_read_block_truncated(b, pos, j, bytes, p);
        },
        None => {},
    }
}

/// A successful block read always ends at least four bytes past where it
/// started, and never past the end of the buffer.
pub proof fn lemma_read_block_bounds(b: Seq<u8>, pos: int, bytes: Seq<u8>, e: int)
    requires
        spec_read_block(b, pos) == Some((bytes, e)),
    ensures
        pos + 4 <= e <= b.len(),
{
}

/// A successful string read always ends at least four bytes past where it
/// started, and never past the end of the buffer.
pub proof fn lemma_read_string_bounds(b: Seq<u8>, pos: int, s: Seq<char>, e: int)
    requires
        spec_read_string(b, pos) == Some((s, e)),
    ensures
        pos + 4 <= e <= b.len(),
{
    match spec_read_block(b, pos) {
        Some((bytes, p)) => {
            lemma_read_block_bounds(b, pos, bytes, p);
        },
        None => {},
    }
}

/// Truncating a buffer before the end of a document frame makes the read
/// fail; truncating at or after its end leaves it unchanged.
pub proof fn lemma_read_doc_truncated(b: Seq<u8>, pos: int, j: int, d: DocView, e: int)
    requires
        0 <= j <= b.len(),
        spec_read_doc(b, pos) == Some((d, e)),
    ensures
        j >= e ==> spec_read_doc(b.take(j), pos) == Some((d, e)),
        j < e ==> spec_read_doc(b.take(j), pos) is None,
{
    match spec_read_string(b, pos) {
        Some((name, p1)) => {
            lemma_read_string_truncated(b, pos, j, name, p1);
            match spec_read_string(b, p1) {
                Some((ctype, p2)) => {
                    lemma_read_string_truncated(b, p1, j, ctype, p2);
                    match spec_read_string(b, p2) {
                        Some((rel, p3)) => {
                            lemma_read_string_truncated(b, p2, j, rel, p3);
                            match spec_read_block(b, p3) {
                                Some((content, p4)) => {
                                    lemma_read_block_truncated(b, p3, j, content, p4);
                                    lemma_read_string_bounds(b, pos, name, p1);
                                    lemma_read_string_bounds(b, p1, ctype, p2);
                                    lemma_read_string_bounds(b, p2, rel, p3);
                                    lemma_read_block_bounds(b, p3, content, p4);
                                },
                                None => {},
                            }
                        },
                        None => {},
                    }
                },
                None => {},
            }
        },
        None => {},
    }
}

/// Truncating a buffer before the end of a run of document frames makes the
/// read fail (for a truncation point at or after where the run starts);
/// truncating at or after its end leaves it unchanged.
pub proof fn lemma_read_docs_truncated(b: Seq<u8>, pos: int, j: int, n: nat, ds: Seq<DocView>, e: int)
    requires
        0 <= j <= b.len(),
        spec_read_docs(b, pos, n) == Some((ds, e)),
    ensures
        j >= e ==> spec_read_docs(b.take(j), pos, n) == Some((ds, e)),
        pos <= j < e ==> spec_read_docs(b.take(j), pos, n) is None,
    decreases n,
{
    if n > 0 {
        match spec_read_doc(b, pos) {
            Some((d, p)) => {
                lemma_read_doc_truncated(b, pos, j, d, p);
                match spec_read_docs(b, p, (n - 1) as nat) {
                    Some((rest, e2)) => {
                        lemma_read_docs_end(b, p, (n - 1) as nat, rest, e2);
                        lemma_read_docs_truncated(b, p, j, (n - 1) as nat, rest, e2);
                    },
                    None => {},
                }
            },
            None => {},
        }
    }
}

/// A successful run of document reads never ends before it starts.
pub proof fn lemma_read_docs_end(b: Seq<u8>, pos: int, n: nat, ds: Seq<DocView>, e: int)
    requires
        spec_read_docs(b, pos, n) == Some((ds, e)),
    ensures
        e >= pos,
    decreases n,
{
    if n > 0 {
        match spec_read_doc(b, pos) {
            Some((d, p)) => {
                match spec_read_docs(b, p, (n - 1) as nat) {
                    Some((rest, e2)) => {
                        lemma_read_docs_end(b, p, (n - 1) as nat, rest, e2);
                    },
                    None => {},
                }
            },
            None => {},
        }
    }
}

/// A packed buffer truncated at any byte offset inside a frame never
/// decodes: the decode fails rather than returning a partial batch.
pub proof fn lemma_truncated_decode_fails(ds: Seq<DocView>, j: int)
    requires
        docs_encodable(ds),
        0 <= j < spec_encode(ds).len(),
    ensures
        spec_decode(spec_encode(ds).take(j), ds.len() as int) is None,
{
    let b = spec_encode(ds);
    let body = spec_encode_docs(ds);
    assert forall|i: int| 0 <= i < 4 implies #[trigger] (b.subrange(0, 4)[i]) == spec_be32(
        ds.len() as u32,
    )[i] by {
        assert(b[i] == spec_be32(ds.len() as u32)[i]);
    }
    assert(b.subrange(0, 4) =~= spec_be32(ds.len() as u32));
    lemma_read_be32_at(b, 0, ds.len() as u32);
    lemma_read_be32_truncated(b, 0, j, ds.len() as u32, 4);
    if j >= 4 {
        assert forall|i: int| 0 <= i < body.len() implies #[trigger] (b.subrange(
            4,
            4 + body.len() as int,
        )[i]) == body[i] by {
            assert(b[4 + i] == body[i]);
        }
        assert(b.subrange(4, 4 + body.len() as int) =~= body);
        lemma_read_docs_at(b, 4, ds);
        lemma_read_docs_truncated(b, 4, j, ds.len(), normalize_docs(ds), 4 + body.len() as int);
    }
}

/// A packed buffer whose declared count disagrees with the expected count
/// never decodes: the mismatch is a protocol error and no documents come
/// back.
pub proof fn lemma_count_mismatch(b: Seq<u8>, expected: int)
    requires
        b.len() < 4 || as_signed32(be32_value(b, 0)) != expected,
    ensures
        spec_decode(b, expected) is None,
{
}

/// A successful run of `n` document reads yields exactly `n` documents.
proof fn lemma_read_docs_len(b: Seq<u8>, pos: int, n: nat, ds: Seq<DocView>, e: int)
    requires
        spec_read_docs(b, pos, n) == Some((ds, e)),
    ensures
        ds.len() == n,
    decreases n,
{
    if n > 0 {
        match spec_read_doc(b, pos) {
            Some((d, p)) => {
                match spec_read_docs(b, p, (n - 1) as nat) {
                    Some((rest, e2)) => {
                        lemma_read_docs_len(b, p, (n - 1) as nat, rest, e2);
                    },
                    None => {},
                }
            },
            None => {},
        }
    }
}

/// A successful decode yields exactly the expected number of documents, and
/// only a nonnegative expected count can succeed.
pub proof fn lemma_decode_count(b: Seq<u8>, expected: int)
    ensures
        match spec_decode(b, expected) {
            Some(ds) => 0 <= expected && ds.len() == expected,
            None => true,
        },
{
    match spec_read_be32(b, 0) {
        Some((cw, p)) => {
            if as_signed32(cw) == expected && expected >= 0 {
                match spec_read_docs(b, p, expected as nat) {
                    Some((ds, e)) => {
                        lemma_read_docs_len(b, p, expected as nat, ds, e);
                    },
                    None => {},
                }
            }
        },
        None => {},
    }
}

} // verus!
