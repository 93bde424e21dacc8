//! Codec for the packed binary format that ships many embedded documents in
//! one foreign round trip.
//!
//! Wire format, big-endian throughout:
//!
//! ```text
//! buffer   := count:i32 document*
//! document := name:LPString type:LPString relId:LPString contentLen:i32 content:byte[contentLen]
//! LPString := len:i32 utf8bytes:byte[len]
//! ```
//!
//! Decoding checks the leading count against an independently supplied
//! expected count, reads exactly that many documents, and fails on any short
//! read, negative length, or invalid UTF-8 in a string field.  The whole
//! batch is discarded on any frame error; there is no partial recovery.  An
//! empty relationship-id string decodes as absent: the wire format does not
//! distinguish an empty id from a missing one.

pub mod laws;

use vstd::prelude::*;
use vstd::slice::*;
use vstd::string::*;
use vstd::utf8::{valid_utf8, decode_utf8, encode_utf8};

use crate::embedded::{DocView, EmbeddedDocument, doc_views};
use crate::errors::{ExtractError, ExtractResult, push_decimal_i32, spec_decimal_i32};

verus! {

/// The largest value a wire-format length or count field can carry: the
/// fields are 32-bit signed integers and negative values are invalid.
pub const MAX_FIELD: usize = 0x7fff_ffff;

/// The unsigned value of the four bytes at `pos`, read big-endian.
pub open spec fn be32_value(b: Seq<u8>, pos: int) -> u32
    recommends
        0 <= pos,
        pos + 4 <= b.len(),
{
    (b[pos] * 0x100_0000 + b[pos + 1] * 0x1_0000 + b[pos + 2] * 0x100 + b[pos + 3]) as u32
}

/// The 32-bit two's-complement reading of an unsigned 32-bit value.
pub open spec fn as_signed32(v: u32) -> int {
    if v >= 0x8000_0000 {
        v - 0x1_0000_0000
    } else {
        v as int
    }
}

/// The four big-endian bytes of an unsigned 32-bit value.
pub open spec fn spec_be32(v: u32) -> Seq<u8> {
    seq![
        (v / 0x100_0000) as u8,
        ((v / 0x1_0000) % 0x100) as u8,
        ((v / 0x100) % 0x100) as u8,
        (v % 0x100) as u8,
    ]
}

/// Reads a 32-bit field at `pos`: the unsigned value and the position after
/// it, or nothing if fewer than four bytes remain.
pub open spec fn spec_read_be32(b: Seq<u8>, pos: int) -> Option<(u32, int)> {
    if 0 <= pos && pos + 4 <= b.len() {
        Some((be32_value(b, pos), pos + 4))
    } else {
        None
    }
}

/// Reads a length-prefixed block at `pos`: the block's bytes and the
/// position after them.  Fails on a short length field, a negative length,
/// or fewer remaining bytes than the length declares.
pub open spec fn spec_read_block(b: Seq<u8>, pos: int) -> Option<(Seq<u8>, int)> {
    match spec_read_be32(b, pos) {
        Some((lw, p)) => {
            let len = as_signed32(lw);
            if len < 0 {
                None
            } else if p + len <= b.len() {
                Some((b.subrange(p, p + len), p + len))
            } else {
                None
            }
        },
        None => None,
    }
}

/// Reads a length-prefixed UTF-8 string at `pos`.  Fails where the block
/// read fails or where the block is not valid UTF-8.
pub open spec fn spec_read_string(b: Seq<u8>, pos: int) -> Option<(Seq<char>, int)> {
    match spec_read_block(b, pos) {
        Some((bytes, p)) => {
            if valid_utf8(bytes) {
                Some((decode_utf8(bytes), p))
            } else {
                None
            }
        },
        None => None,
    }
}

/// Reads one document frame at `pos`: three length-prefixed strings (name,
/// content type, relationship id) and one length-prefixed content block, in
/// fixed order.  An empty relationship id is normalized to absent.
pub open spec fn spec_read_doc(b: Seq<u8>, pos: int) -> Option<(DocView, int)> {
    match spec_read_string(b, pos) {
        Some((name, p1)) => match spec_read_string(b, p1) {
            Some((ctype, p2)) => match spec_read_string(b, p2) {
                Some((rel, p3)) => match spec_read_block(b, p3) {
                    Some((content, p4)) => Some(
                        (
                            DocView {
                                resource_name: name,
                                content_type: ctype,
                                embedded_relationship_id: if rel.len() == 0 {
                                    None
                                } else {
                                    Some(rel)
                                },
                                content,
                            },
                            p4,
                        ),
                    ),
                    None => None,
                },
                None => None,
            },
            None => None,
        },
        None => None,
    }
}

/// Reads `n` document frames in sequence starting at `pos`.
pub open spec fn spec_read_docs(b: Seq<u8>, pos: int, n: nat) -> Option<(Seq<DocView>, int)>
    decreases n,
{
    if n == 0 {
        Some((Seq::empty(), pos))
    } else {
        match spec_read_doc(b, pos) {
            Some((d, p)) => match spec_read_docs(b, p, (n - 1) as nat) {
                Some((ds, e)) => Some((seq![d] + ds, e)),
                None => None,
            },
            None => None,
        }
    }
}

/// The whole decode: the leading count must equal `expected` and be
/// nonnegative (a negative count is a protocol violation even where the
/// expected count agrees); then that many document frames follow.  Bytes
/// after the last frame are ignored.
pub open spec fn spec_decode(b: Seq<u8>, expected: int) -> Option<Seq<DocView>> {
    match spec_read_be32(b, 0) {
        Some((cw, p)) => {
            if as_signed32(cw) != expected || expected < 0 {
                None
            } else {
                match spec_read_docs(b, p, expected as nat) {
                    Some((ds, _)) => Some(ds),
                    None => None,
                }
            }
        },
        None => None,
    }
}

/// The message of a failed 32-bit read.
pub open spec fn spec_read_i32_failure() -> Seq<char> {
    "Failed to read i32: unexpected end of data"@
}

/// The message of a failed block read at `pos`: a failed length field keeps
/// that failure's message; otherwise a negative or overrunning length names
/// its own cause.
pub open spec fn spec_block_failure(b: Seq<u8>, pos: int) -> Seq<char> {
    match spec_read_be32(b, pos) {
        Some((lw, p)) => {
            if as_signed32(lw) < 0 {
                "Failed to read block: negative length"@
            } else {
                "Failed to read block: unexpected end of data"@
            }
        },
        None => spec_read_i32_failure(),
    }
}

/// The message of a failed string read at `pos`: where the block itself was
/// read, the failure is the UTF-8 validation's.
pub open spec fn spec_string_failure(b: Seq<u8>, pos: int) -> Seq<char> {
    match spec_read_block(b, pos) {
        Some(block) => "Failed to decode string as UTF-8"@,
        None => spec_block_failure(b, pos),
    }
}

/// The message of a count mismatch, naming both counts.
pub open spec fn spec_mismatch_message(expected: int, declared: int) -> Seq<char> {
    "Document count mismatch: expected "@ + spec_decimal_i32(expected) + ", got "@
        + spec_decimal_i32(declared)
}

/// The message of a negative document count.
pub open spec fn spec_negative_count_message(declared: int) -> Seq<char> {
    "Invalid document count: "@ + spec_decimal_i32(declared)
}

/// A length-prefixed block: four big-endian length bytes, then the bytes.
pub open spec fn spec_encode_lp(bytes: Seq<u8>) -> Seq<u8>
    recommends
        bytes.len() <= MAX_FIELD,
{
    spec_be32(bytes.len() as u32) + bytes
}

/// The bytes that a document's relationship id occupies on the wire: an
/// absent id is written as an empty string.
pub open spec fn spec_rel_bytes(d: DocView) -> Seq<u8> {
    match d.embedded_relationship_id {
        Some(s) => encode_utf8(s),
        None => Seq::empty(),
    }
}

/// One document frame: name, content type, relationship id as
/// length-prefixed UTF-8 strings, then the length-prefixed content.
pub open spec fn spec_encode_doc(d: DocView) -> Seq<u8>
    recommends
        doc_encodable(d),
{
    spec_encode_lp(encode_utf8(d.resource_name)) + spec_encode_lp(encode_utf8(d.content_type))
        + spec_encode_lp(spec_rel_bytes(d)) + spec_encode_lp(d.content)
}

/// The document frames in order, with no separators.
pub open spec fn spec_encode_docs(ds: Seq<DocView>) -> Seq<u8> {
    ds.flat_map(|d: DocView| spec_encode_doc(d))
}

/// The whole packed buffer: the document count, then the frames.
pub open spec fn spec_encode(ds: Seq<DocView>) -> Seq<u8>
    recommends
        docs_encodable(ds),
{
    spec_be32(ds.len() as u32) + spec_encode_docs(ds)
}

/// Whether one document's fields all fit the wire format's signed 32-bit
/// length fields.
pub open spec fn doc_encodable(d: DocView) -> bool {
    &&& encode_utf8(d.resource_name).len() <= MAX_FIELD
    &&& encode_utf8(d.content_type).len() <= MAX_FIELD
    &&& spec_rel_bytes(d).len() <= MAX_FIELD
    &&& d.content.len() <= MAX_FIELD
}

/// Whether a document sequence can be packed: the count and every length
/// field must fit the wire format.
pub open spec fn docs_encodable(ds: Seq<DocView>) -> bool {
    &&& ds.len() <= MAX_FIELD
    &&& forall|i: int| 0 <= i < ds.len() ==> doc_encodable(#[trigger] ds[i])
}

/// Appending a document to a sequence appends its frame to the encoding.
pub proof fn lemma_encode_docs_push(ds: Seq<DocView>, d: DocView)
    ensures
        spec_encode_docs(ds.push(d)) == spec_encode_docs(ds) + spec_encode_doc(d),
{
    ds.lemma_flat_map_push(|x: DocView| spec_encode_doc(x), d);
}

/// The encoding of a nonempty sequence starts with the first document's
/// frame, followed by the encoding of the rest.
pub proof fn lemma_encode_docs_first(ds: Seq<DocView>)
    requires
        ds.len() > 0,
    ensures
        spec_encode_docs(ds) == spec_encode_doc(ds[0]) + spec_encode_docs(ds.drop_first()),
{
    let f = |x: DocView| spec_encode_doc(x);
    assert(ds.map_values(f).drop_first() =~= ds.drop_first().map_values(f));
    assert(ds.map_values(f).first() == f(ds[0]));
    assert(ds.map_values(f).flatten() == ds.map_values(f).first() + ds.map_values(
        f,
    ).drop_first().flatten());
}

/// Relies on `String::from_utf8`: it succeeds exactly on input that is valid
/// UTF-8, and the returned string's characters are the UTF-8 decoding of the
/// input bytes.
#[verifier::external_body]
fn string_from_utf8(bytes: Vec<u8>) -> (r: Option<String>)
    ensures
        r is Some <==> valid_utf8(bytes@),
        r matches Some(s) ==> s@ == decode_utf8(bytes@),
{
    String::from_utf8(bytes).ok()
}

/// Reads a big-endian 32-bit signed integer at `*pos`, advancing `*pos` past
/// it.  On failure `*pos` is unchanged and the error is a parse error.
pub fn read_i32(data: &[u8], pos: &mut usize) -> (r: ExtractResult<i32>)
    ensures
        match r {
            Ok(v) => match spec_read_be32(data@, *old(pos) as int) {
                Some((w, end)) => v as int == as_signed32(w) && *final(pos) == end,
                None => false,
            },
            Err(e) => {
                &&& spec_read_be32(data@, *old(pos) as int) is None
                &&& *final(pos) == *old(pos)
                &&& e is ParseError
                &&& e.spec_message() == spec_read_i32_failure()
            },
        },
{
    let p = *pos;
    if data.len() < 4 || p > data.len() - 4 {
        return Err(ExtractError::ParseError(String::from_str("Failed to read i32: unexpected end of data")));
    }
    let b0 = data[p] as u32;
    let b1 = data[p + 1] as u32;
    let b2 = data[p + 2] as u32;
    let b3 = data[p + 3] as u32;
    let w = b0 * 0x100_0000 + b1 * 0x1_0000 + b2 * 0x100 + b3;
    let v: i32 = if w >= 0x8000_0000 {
        let mag = 0x1_0000_0000i64 - w as i64;
        (-mag) as i32
    } else {
        w as i32
    };
    *pos = p + 4;
    Ok(v)
}

/// Reads a length-prefixed byte block at `*pos`, advancing `*pos` past it.
/// On failure `*pos` is unchanged and the error is a parse error.
fn read_block(data: &[u8], pos: &mut usize) -> (r: ExtractResult<Vec<u8>>)
    ensures
        match r {
            Ok(v) => match spec_read_block(data@, *old(pos) as int) {
                Some((bytes, end)) => v@ == bytes && *final(pos) == end,
                None => false,
            },
            Err(e) => {
                &&& spec_read_block(data@, *old(pos) as int) is None
                &&& *final(pos) == *old(pos)
                &&& e is ParseError
                &&& e.spec_message() == spec_block_failure(data@, *old(pos) as int)
            },
        },
{
    let mut p = *pos;
    let len = match read_i32(data, &mut p) {
        Ok(v) => v,
        Err(e) => {
            return Err(e);
        },
    };
    if len < 0 {
        return Err(ExtractError::ParseError(String::from_str("Failed to read block: negative length")));
    }
    let n = len as usize;
    if n > data.len() - p {
        return Err(ExtractError::ParseError(String::from_str("Failed to read block: unexpected end of data")));
    }
    let out = slice_to_vec(slice_subrange(data, p, p + n));
    *pos = p + n;
    Ok(out)
}

/// Reads a length-prefixed UTF-8 string at `*pos`, advancing `*pos` past it.
/// On failure `*pos` is unchanged and the error is a parse error.
pub fn read_string(data: &[u8], pos: &mut usize) -> (r: ExtractResult<String>)
    ensures
        match r {
            Ok(s) => match spec_read_string(data@, *old(pos) as int) {
                Some((chars, end)) => s@ == chars && *final(pos) == end,
                None => false,
            },
            Err(e) => {
                &&& spec_read_string(data@, *old(pos) as int) is None
                &&& *final(pos) == *old(pos)
                &&& e is ParseError
                &&& e.spec_message() == spec_string_failure(data@, *old(pos) as int)
            },
        },
{
    let mut p = *pos;
    let bytes = match read_block(data, &mut p) {
        Ok(v) => v,
        Err(e) => {
            return Err(e);
        },
    };
    match string_from_utf8(bytes) {
        Some(s) => {
            *pos = p;
            Ok(s)
        },
        None => Err(ExtractError::ParseError(String::from_str("Failed to decode string as UTF-8"))),
    }
}

/// Reads one document frame at `*pos`, advancing `*pos` past it.  On failure
/// `*pos` is unchanged and the error is a parse error.
fn read_doc(data: &[u8], pos: &mut usize) -> (r: ExtractResult<EmbeddedDocument>)
    ensures
        match r {
            Ok(d) => match spec_read_doc(data@, *old(pos) as int) {
                Some((dv, end)) => d@ == dv && *final(pos) == end,
                None => false,
            },
            Err(e) => {
                &&& spec_read_doc(data@, *old(pos) as int) is None
                &&& *final(pos) == *old(pos)
                &&& e is ParseError
            },
        },
{
    let mut p = *pos;
    let resource_name = match read_string(data, &mut p) {
        Ok(s) => s,
        Err(e) => {
            return Err(e);
        },
    };
    let content_type = match read_string(data, &mut p) {
        Ok(s) => s,
        Err(e) => {
            return Err(e);
        },
    };
    let rel = match read_string(data, &mut p) {
        Ok(s) => s,
        Err(e) => {
            return Err(e);
        },
    };
    let embedded_relationship_id = if rel.as_str().is_empty() {
        None
    } else {
        Some(rel)
    };
    let content = match read_block(data, &mut p) {
        Ok(v) => v,
        Err(e) => {
            return Err(e);
        },
    };
    *pos = p;
    Ok(EmbeddedDocument { resource_name, content_type, content, embedded_relationship_id })
}

/// Unpacks a packed buffer into documents.  The buffer's leading count must
/// equal `expected_count`, which the foreign side reports out of band; a
/// mismatch, or a negative count, is a protocol error.  Any frame error
/// discards the whole batch: the result is exactly the documents of
/// [`spec_decode`], or a parse error where that decode fails.
pub fn unpack_optimized_data(data: &[u8], expected_count: i32) -> (r: ExtractResult<
    Vec<EmbeddedDocument>,
>)
    ensures
        match r {
            Ok(docs) => match spec_decode(data@, expected_count as int) {
                Some(ds) => doc_views(docs@) == ds,
                None => false,
            },
            Err(e) => {
                &&& spec_decode(data@, expected_count as int) is None
                &&& e is ParseError
                &&& match spec_read_be32(data@, 0) {
                    Some(cw_p) => {
                        let declared = as_signed32(cw_p.0);
                        &&& (declared != expected_count as int ==> e.spec_message()
                            == spec_mismatch_message(expected_count as int, declared))
                        &&& (declared == expected_count as int && declared < 0
                            ==> e.spec_message() == spec_negative_count_message(declared))
                    },
                    None => e.spec_message() == spec_read_i32_failure(),
                }
            },
        },
{
    let mut pos: usize = 0;
    let count = match read_i32(data, &mut pos) {
        Ok(v) => v,
        Err(e) => {
            return Err(e);
        },
    };
    if count != expected_count {
        let mut msg = String::from_str("Document count mismatch: expected ");
        push_decimal_i32(&mut msg, expected_count);
        msg.append(", got ");
        push_decimal_i32(&mut msg, count);
        return Err(ExtractError::ParseError(msg));
    }
    if count < 0 {
        let mut msg = String::from_str("Invalid document count: ");
        push_decimal_i32(&mut msg, count);
        return Err(ExtractError::ParseError(msg));
    }
    let n: usize = count as usize;
    let ghost start = pos as int;
    let mut docs: Vec<EmbeddedDocument> = Vec::new();
    let mut i: usize = 0;
    proof {
        assert(doc_views(docs@) =~= Seq::<DocView>::empty());
    }
    #[verifier::loop_isolation(false)]
    while i < n
        invariant
            i <= n,
            doc_views(docs@).len() == i,
            match spec_read_docs(data@, pos as int, (n - i) as nat) {
                Some((ds, e)) => spec_read_docs(data@, start, n as nat) == Some(
                    (doc_views(docs@) + ds, e),
                ),
                None => spec_read_docs(data@, start, n as nat) is None,
            },
        decreases n - i,
    {
        let d = match read_doc(data, &mut pos) {
            Ok(d) => d,
            Err(e) => {
                return Err(e);
            },
        };
        proof {
            let dv = d@;
            assert(doc_views(docs@.push(d)) =~= doc_views(docs@).push(dv));
            let rest = (n - i - 1) as nat;
            match spec_read_docs(data@, pos as int, rest) {
                Some((ds, e)) => {
                    assert(doc_views(docs@).push(dv) + ds =~= doc_views(docs@) + (seq![dv] + ds));
                },
                None => {},
            }
        }
        docs.push(d);
        i = i + 1;
    }
    proof {
        assert(spec_read_docs(data@, pos as int, 0nat) == Some((Seq::<DocView>::empty(), pos as int)));
        assert(doc_views(docs@) + Seq::<DocView>::empty() =~= doc_views(docs@));
    }
    Ok(docs)
}

/// Appends the four big-endian bytes of `v`.
fn push_be32(out: &mut Vec<u8>, v: u32)
    ensures
        final(out)@ == old(out)@ + spec_be32(v),
{
    assert(v / 0x100_0000 < 0x100) by (nonlinear_arith)
        requires
            v <= 0xffff_ffffu32,
    ;
    let a = v / 0x100_0000;
    let b = (v / 0x1_0000) % 0x100;
    let c = (v / 0x100) % 0x100;
    let d = v % 0x100;
    out.push(a as u8);
    out.push(b as u8);
    out.push(c as u8);
    out.push(d as u8);
    assert(out@ =~= old(out)@ + spec_be32(v));
}

/// Appends a length-prefixed block, or reports that the block is too long
/// for a 32-bit length field.
fn push_block(out: &mut Vec<u8>, bytes: &[u8]) -> (ok: bool)
    ensures
        ok ==> bytes@.len() <= MAX_FIELD && final(out)@ == old(out)@ + spec_encode_lp(bytes@),
        !ok ==> bytes@.len() > MAX_FIELD,
{
    if bytes.len() > MAX_FIELD {
        return false;
    }
    push_be32(out, bytes.len() as u32);
    out.extend_from_slice(bytes);
    assert(out@ =~= old(out)@ + spec_encode_lp(bytes@));
    true
}

/// Appends one document frame, or reports that some field of the document is
/// too long for the wire format.
fn push_doc(out: &mut Vec<u8>, d: &EmbeddedDocument) -> (ok: bool)
    ensures
        ok ==> doc_encodable(d@) && final(out)@ == old(out)@ + spec_encode_doc(d@),
        !ok ==> !doc_encodable(d@),
{
    if !push_block(out, d.resource_name.as_str().as_bytes()) {
        return false;
    }
    if !push_block(out, d.content_type.as_str().as_bytes()) {
        return false;
    }
    let rel_ok = match &d.embedded_relationship_id {
        Some(s) => push_block(out, s.as_str().as_bytes()),
        None => {
            let empty: Vec<u8> = Vec::new();
            assert(empty@ =~= spec_rel_bytes(d@));
            push_block(out, empty.as_slice())
        },
    };
    if !rel_ok {
        return false;
    }
    if !push_block(out, d.content.as_slice()) {
        return false;
    }
    assert(out@ =~= old(out)@ + spec_encode_doc(d@));
    true
}

/// Packs documents into the wire format.  Succeeds exactly when the count
/// and every field length fit the format's signed 32-bit fields; the buffer
/// is then byte for byte the [`spec_encode`] of the documents.
pub fn encode_documents(docs: &Vec<EmbeddedDocument>) -> (r: ExtractResult<Vec<u8>>)
    ensures
        match r {
            Ok(buf) => docs_encodable(doc_views(docs@)) && buf@ == spec_encode(doc_views(docs@)),
            Err(e) => !docs_encodable(doc_views(docs@)) && e is ParseError,
        },
{
    let ghost views = doc_views(docs@);
    if docs.len() > MAX_FIELD {
        return Err(ExtractError::ParseError(String::from_str("Too many documents to encode")));
    }
    let mut out: Vec<u8> = Vec::new();
    push_be32(&mut out, docs.len() as u32);
    let mut i: usize = 0;
    proof {
        assert(views.take(0) =~= Seq::<DocView>::empty());
        assert(out@ =~= spec_be32(docs.len() as u32) + spec_encode_docs(views.take(0)));
    }
    #[verifier::loop_isolation(false)]
    while i < docs.len()
        invariant
            i <= docs.len(),
            out@ == spec_be32(docs.len() as u32) + spec_encode_docs(views.take(i as int)),
            forall|j: int| 0 <= j < i ==> doc_encodable(#[trigger] views[j]),
        decreases docs.len() - i,
    {
        let ok = push_doc(&mut out, &docs[i]);
        if !ok {
            proof {
                assert(views[i as int] == docs@[i as int]@);
                assert(!docs_encodable(views));
            }
            return Err(ExtractError::ParseError(String::from_str("Document field too long to encode")));
        }
        proof {
            assert(views[i as int] == docs@[i as int]@);
            lemma_encode_docs_push(views.take(i as int), views[i as int]);
            assert(views.take(i + 1) =~= views.take(i as int).push(views[i as int]));
            assert(out@ =~= spec_be32(docs.len() as u32) + spec_encode_docs(views.take(i + 1)));
        }
        i = i + 1;
    }
    proof {
        assert(views.take(docs.len() as int) =~= views);
    }
    Ok(out)
}

} // verus!
