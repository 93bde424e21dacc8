//! Native-owned result types for embedded document extraction.

use vstd::prelude::*;
use vstd::string::StrSliceExecFns;

verus! {

/// Whether `s` starts with `prefix`, character for character.
pub open spec fn spec_starts_with(s: Seq<char>, prefix: Seq<char>) -> bool {
    s.len() >= prefix.len() && s.subrange(0, prefix.len() as int) == prefix
}

/// Whether the string starts with the prefix, character for character.
fn str_starts_with(s: &str, prefix: &str) -> (r: bool)
    ensures
        r == spec_starts_with(s@, prefix@),
{
    let n = prefix.unicode_len();
    let m = s.unicode_len();
    if m < n {
        return false;
    }
    let mut i: usize = 0;
    #[verifier::loop_isolation(false)]
    while i < n
        invariant
            i <= n,
            forall|j: int| 0 <= j < i ==> s@[j] == prefix@[j],
        decreases n - i,
    {
        if s.get_char(i) != prefix.get_char(i) {
            proof {
                assert(s@.subrange(0, prefix@.len() as int)[i as int] == s@[i as int]);
            }
            return false;
        }
        i = i + 1;
    }
    proof {
        assert(s@.subrange(0, prefix@.len() as int) =~= prefix@);
    }
    true
}

/// Whether two strings hold the same characters.
fn str_eq(s: &str, t: &str) -> (r: bool)
    ensures
        r == (s@ == t@),
{
    let n = s.unicode_len();
    if n != t.unicode_len() {
        return false;
    }
    let mut i: usize = 0;
    #[verifier::loop_isolation(false)]
    while i < n
        invariant
            i <= n,
            forall|j: int| 0 <= j < i ==> s@[j] == t@[j],
        decreases n - i,
    {
        if s.get_char(i) != t.get_char(i) {
            return false;
        }
        i = i + 1;
    }
    proof {
        assert(s@ =~= t@);
    }
    true
}

/// Metadata of the parent document: string keys, each with an ordered
/// sequence of values.  Produced by the foreign runtime and never mutated by
/// the bridge, so it is carried as a plain list of pairs with unique keys.
pub type Metadata = Vec<(String, Vec<String>)>;

/// An embedded document extracted from a container file.  After unmarshaling
/// it is owned exclusively by the result that contains it; no foreign-side
/// aliasing survives the call.
#[derive(Debug, Clone)]
pub struct EmbeddedDocument {
    /// The name or path of the embedded resource.
    pub resource_name: String,
    /// MIME type of the embedded content.
    pub content_type: String,
    /// The actual content bytes.
    pub content: Vec<u8>,
    /// Optional relationship id (for formats that record one).
    pub embedded_relationship_id: Option<String>,
}

/// The mathematical value of an [`EmbeddedDocument`]: its text fields as
/// character sequences and its content as a byte sequence.
pub struct DocView {
    pub resource_name: Seq<char>,
    pub content_type: Seq<char>,
    pub embedded_relationship_id: Option<Seq<char>>,
    pub content: Seq<u8>,
}

impl View for EmbeddedDocument {
    type V = DocView;

    open spec fn view(&self) -> DocView {
        DocView {
            resource_name: self.resource_name@,
            content_type: self.content_type@,
            embedded_relationship_id: match self.embedded_relationship_id {
                Some(s) => Some(s@),
                None => None,
            },
            content: self.content@,
        }
    }
}

/// The views of a sequence of documents, element for element.
pub open spec fn doc_views(docs: Seq<EmbeddedDocument>) -> Seq<DocView> {
    docs.map_values(|d: EmbeddedDocument| d@)
}

/// Result of embedded document extraction: the documents in order, and the
/// parent document's metadata.  Created fresh per call and owned by the
/// caller.
#[derive(Debug)]
pub struct EmbeddedExtractResult {
    /// The extracted embedded documents, in the order the container held them.
    pub documents: Vec<EmbeddedDocument>,
    /// Metadata from the parent document.
    pub metadata: Metadata,
}

/// Whether a MIME type names an image.
pub open spec fn spec_is_image(content_type: Seq<char>) -> bool {
    spec_starts_with(content_type, "image/"@)
}

/// Whether a MIME type names a document format.
pub open spec fn spec_is_document(content_type: Seq<char>) -> bool {
    ||| content_type == "application/pdf"@
    ||| content_type == "application/msword"@
    ||| content_type == "application/vnd.openxmlformats-officedocument.wordprocessingml.document"@
    ||| content_type == "application/vnd.ms-excel"@
    ||| content_type == "application/vnd.openxmlformats-officedocument.spreadsheetml.sheet"@
    ||| content_type == "application/vnd.ms-powerpoint"@
    ||| content_type == "application/vnd.openxmlformats-officedocument.presentationml.presentation"@
    ||| spec_starts_with(content_type, "text/"@)
}

impl EmbeddedDocument {
    /// The size of the embedded content in bytes.
    pub fn size(&self) -> (n: usize)
        ensures
            n == self@.content.len(),
    {
        self.content.len()
    }

    /// Whether this is likely an image, judged by its content type.
    pub fn is_image(&self) -> (r: bool)
        ensures
            r == spec_is_image(self.content_type@),
    {
        str_starts_with(self.content_type.as_str(), "image/")
    }

    /// Whether this is likely a document, judged by its content type.
    pub fn is_document(&self) -> (r: bool)
        ensures
            r == spec_is_document(self.content_type@),
    {
        str_eq(self.content_type.as_str(), "application/pdf") || str_eq(
            self.content_type.as_str(),
            "application/msword",
        ) || str_eq(
            self.content_type.as_str(),
            "application/vnd.openxmlformats-officedocument.wordprocessingml.document",
        ) || str_eq(self.content_type.as_str(), "application/vnd.ms-excel") || str_eq(
            self.content_type.as_str(),
            "application/vnd.openxmlformats-officedocument.spreadsheetml.sheet",
        ) || str_eq(self.content_type.as_str(), "application/vnd.ms-powerpoint") || str_eq(
            self.content_type.as_str(),
            "application/vnd.openxmlformats-officedocument.presentationml.presentation",
        ) || str_starts_with(self.content_type.as_str(), "text/")
    }
}

/// The documents of a sequence whose image judgement equals `want`, in
/// order.
pub open spec fn spec_filter_images(docs: Seq<EmbeddedDocument>, want: bool) -> Seq<
    EmbeddedDocument,
>
    decreases docs.len(),
{
    if docs.len() == 0 {
        Seq::empty()
    } else {
        let rest = spec_filter_images(docs.drop_last(), want);
        if spec_is_image(docs.last().content_type@) == want {
            rest.push(docs.last())
        } else {
            rest
        }
    }
}

/// The total content size of a document sequence, in bytes.
pub open spec fn spec_total_size(docs: Seq<EmbeddedDocument>) -> int
    decreases docs.len(),
{
    if docs.len() == 0 {
        0
    } else {
        spec_total_size(docs.drop_last()) + docs.last().content@.len()
    }
}

/// A prefix never outweighs the whole: content sizes are nonnegative.
proof fn lemma_total_size_prefix(docs: Seq<EmbeddedDocument>, i: int)
    requires
        0 <= i <= docs.len(),
    ensures
        spec_total_size(docs.take(i)) <= spec_total_size(docs),
    decreases docs.len() - i,
{
    if i == docs.len() {
        assert(docs.take(i) =~= docs);
    } else {
        assert(docs.take(i + 1).drop_last() =~= docs.take(i));
        assert(docs.take(i + 1).last() == docs[i]);
        lemma_total_size_prefix(docs, i + 1);
    }
}

impl EmbeddedExtractResult {
    /// Only the image documents, in order.
    pub fn images(&self) -> (r: Vec<&EmbeddedDocument>)
        ensures
            r@.map_values(|d: &EmbeddedDocument| *d) == spec_filter_images(self.documents@, true),
    {
        filter_documents(&self.documents, true)
    }

    /// Only the documents that are not images, in order.
    pub fn non_images(&self) -> (r: Vec<&EmbeddedDocument>)
        ensures
            r@.map_values(|d: &EmbeddedDocument| *d) == spec_filter_images(self.documents@, false),
    {
        filter_documents(&self.documents, false)
    }

    /// The total size of all embedded documents, in bytes.
    pub fn total_size(&self) -> (n: usize)
        requires
            spec_total_size(self.documents@) <= usize::MAX,
        ensures
            n == spec_total_size(self.documents@),
    {
        let ghost docs = self.documents@;
        let mut sum: usize = 0;
        let mut i: usize = 0;
        proof {
            assert(docs.take(0) =~= Seq::<EmbeddedDocument>::empty());
        }
        #[verifier::loop_isolation(false)]
        while i < self.documents.len()
            invariant
                i <= docs.len(),
                sum == spec_total_size(docs.take(i as int)),
            decreases docs.len() - i,
        {
            proof {
                assert(docs.take(i + 1).drop_last() =~= docs.take(i as int));
                assert(docs.take(i + 1).last() == docs[i as int]);
                lemma_total_size_prefix(docs, i + 1);
            }
            sum = sum + self.documents[i].size();
            i = i + 1;
        }
        proof {
            assert(docs.take(docs.len() as int) =~= docs);
        }
        sum
    }
}

/// The documents whose image judgement equals `want`, in order, by
/// reference.
fn filter_documents(documents: &Vec<EmbeddedDocument>, want: bool) -> (r: Vec<&EmbeddedDocument>)
    ensures
        r@.map_values(|d: &EmbeddedDocument| *d) == spec_filter_images(documents@, want),
{
    let ghost docs = documents@;
    let mut out: Vec<&EmbeddedDocument> = Vec::new();
    let mut i: usize = 0;
    proof {
        assert(docs.take(0) =~= Seq::<EmbeddedDocument>::empty());
        assert(out@.map_values(|d: &EmbeddedDocument| *d) =~= Seq::<EmbeddedDocument>::empty());
    }
    #[verifier::loop_isolation(false)]
    while i < documents.len()
        invariant
            i <= docs.len(),
            out@.map_values(|d: &EmbeddedDocument| *d) == spec_filter_images(
                docs.take(i as int),
                want,
            ),
        decreases docs.len() - i,
    {
        let ghost prev = out@;
        let d = &documents[i];
        if d.is_image() == want {
            out.push(d);
        }
        proof {
            assert(docs.take(i + 1).drop_last() =~= docs.take(i as int));
            assert(docs.take(i + 1).last() == docs[i as int]);
            assert(out@.map_values(|x: &EmbeddedDocument| *x) =~= spec_filter_images(
                docs.take(i + 1),
                want,
            ));
        }
        i = i + 1;
    }
    proof {
        assert(docs.take(docs.len() as int) =~= docs);
    }
    out
}

} // verus!
