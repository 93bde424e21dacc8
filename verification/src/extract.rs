//! Embedded-document extraction strategies.
//!
//! Every strategy dispatches one operation to the foreign runtime, checks
//! the error envelope of what comes back, and unmarshals the payload.  The
//! runtime is reached only through the [`ForeignRuntime`] capability, so the
//! bridge logic here is verified for every envelope the runtime can hand
//! back, and is testable against a runtime that returns pre-set envelopes.

use vstd::prelude::*;
use vstd::string::StringExecFns;

use crate::codec::{spec_decode, unpack_optimized_data};
use crate::config::{
    OfficeParserConfig, PdfParserConfig, SetterCall, TesseractOcrConfig, ocr_setter_calls,
    office_setter_calls, pdf_setter_calls,
};
use crate::embedded::{EmbeddedDocument, EmbeddedExtractResult, Metadata, doc_views};
use crate::envelope::{ErrorEnvelope, spec_resolved_message};
use crate::errors::{ExtractError, ExtractResult, spec_status_error, status_error};

verus! {

/// What the foreign `extractEmbedded` operations return: an error envelope
/// and, on success, the document list and parent metadata.
#[derive(Debug, Clone)]
pub struct ListEnvelope {
    pub envelope: ErrorEnvelope,
    pub documents: Vec<EmbeddedDocument>,
    pub metadata: Metadata,
}

/// What the foreign `extractEmbeddedOptimized` operation returns: an error
/// envelope and, on success, one packed buffer and an out-of-band document
/// count.
#[derive(Debug, Clone)]
pub struct OptimizedEnvelope {
    pub envelope: ErrorEnvelope,
    pub packed_data: Option<Vec<u8>>,
    pub document_count: i32,
}

/// The capability through which the foreign runtime is reached.  Every
/// operation attaches the calling thread for its own duration, blocks until
/// the foreign side answers, and returns the raw envelope; dispatch
/// failures that produce no envelope at all surface as errors.  Nothing is
/// assumed of an implementation: the bridge states what holds of its own
/// results whatever envelope comes back.
pub trait ForeignRuntime {
    /// Dispatches `extractEmbedded`: parse the file at `file_path` and
    /// return its embedded documents as a foreign list.
    fn extract_embedded(
        &mut self,
        file_path: &str,
        pdf: &Vec<SetterCall>,
        office: &Vec<SetterCall>,
        ocr: &Vec<SetterCall>,
    ) -> ExtractResult<ListEnvelope>;

    /// Dispatches `extractEmbeddedFromBytes`: like `extractEmbedded` but the
    /// container is handed over as bytes.
    fn extract_embedded_from_bytes(
        &mut self,
        buffer: &Vec<u8>,
        pdf: &Vec<SetterCall>,
        office: &Vec<SetterCall>,
        ocr: &Vec<SetterCall>,
    ) -> ExtractResult<ListEnvelope>;

    /// Dispatches `extractEmbeddedOptimized`: one call that returns all
    /// embedded documents in a single packed buffer.
    fn extract_embedded_optimized(
        &mut self,
        file_path: &str,
        pdf: &Vec<SetterCall>,
        office: &Vec<SetterCall>,
        ocr: &Vec<SetterCall>,
    ) -> ExtractResult<OptimizedEnvelope>;
}

/// The synthetic-message prefix of the file-based list extraction.
pub open spec fn spec_list_prefix_file() -> Seq<char> {
    "Embedded extraction failed with code "@
}

/// The synthetic-message prefix of the bytes-based list extraction.
pub open spec fn spec_list_prefix_bytes() -> Seq<char> {
    "Embedded extraction from bytes failed with code "@
}

/// The synthetic-message prefix of the optimized extraction.
pub open spec fn spec_optimized_prefix() -> Seq<char> {
    "Optimized embedded extraction failed with code "@
}

/// How a list envelope converts: success carries the documents and metadata
/// through unchanged; any nonzero code is mapped through the status taxonomy
/// (1 an I/O failure, 2 a parse failure, anything else unknown), its message
/// the envelope's, or the synthetic one where absent.
pub open spec fn spec_list_conversion(
    env: ListEnvelope,
    prefix: Seq<char>,
    r: ExtractResult<EmbeddedExtractResult>,
) -> bool {
    match r {
        Ok(res) => {
            &&& env.envelope.code == 0
            &&& res.documents == env.documents
            &&& res.metadata == env.metadata
        },
        Err(e) => {
            &&& env.envelope.code != 0
            &&& spec_status_error(
                env.envelope.code,
                spec_resolved_message(env.envelope, prefix),
                e,
            )
        },
    }
}

/// Converts a list envelope into a native result, applying the envelope
/// protocol: the payload is touched only when the code is zero.
pub fn convert_list_envelope(env: ListEnvelope, prefix: &str) -> (r: ExtractResult<
    EmbeddedExtractResult,
>)
    ensures
        spec_list_conversion(env, prefix@, r),
{
    if env.envelope.code != 0 {
        let msg = env.envelope.resolve_message(prefix);
        Err(status_error(env.envelope.code, msg))
    } else {
        Ok(EmbeddedExtractResult { documents: env.documents, metadata: env.metadata })
    }
}

/// How an optimized envelope unpacks: success requires a zero code, a
/// present packed buffer, and a clean decode against the envelope's own
/// document count; the metadata of this path is always empty.  A nonzero
/// code is mapped through the status taxonomy with the resolved message; a
/// missing buffer or a failed decode is a parse error found by the bridge.
pub open spec fn spec_unpacking(
    env: OptimizedEnvelope,
    r: ExtractResult<EmbeddedExtractResult>,
) -> bool {
    match r {
        Ok(res) => {
            &&& env.envelope.code == 0
            &&& res.metadata@.len() == 0
            &&& match env.packed_data {
                Some(data) => spec_decode(data@, env.document_count as int) == Some(
                    doc_views(res.documents@),
                ),
                None => false,
            }
        },
        Err(e) => {
            &&& (env.envelope.code != 0 ==> spec_status_error(
                env.envelope.code,
                spec_resolved_message(env.envelope, spec_optimized_prefix()),
                e,
            ))
            &&& (env.envelope.code == 0 ==> e is ParseError && match env.packed_data {
                Some(data) => spec_decode(data@, env.document_count as int) is None,
                None => e.spec_message() == "No packed data returned from optimized extraction"@,
            })
        },
    }
}

/// Unpacks an optimized envelope into a native result: envelope check
/// first, then the packed buffer decode.  Parent metadata is not carried by
/// this path and is always empty.
pub fn unpack_envelope(env: OptimizedEnvelope) -> (r: ExtractResult<EmbeddedExtractResult>)
    ensures
        spec_unpacking(env, r),
{
    let ghost genv = env;
    if env.envelope.code != 0 {
        let msg = env.envelope.resolve_message("Optimized embedded extraction failed with code ");
        return Err(status_error(env.envelope.code, msg));
    }
    let count = env.document_count;
    match env.packed_data {
        Some(data) => match unpack_optimized_data(data.as_slice(), count) {
            Ok(documents) => Ok(EmbeddedExtractResult { documents, metadata: Vec::new() }),
            Err(e) => Err(e),
        },
        None => Err(
            ExtractError::ParseError(
                String::from_str("No packed data returned from optimized extraction"),
            ),
        ),
    }
}

/// How the result of a list-based extraction relates to the runtime's
/// outcome: a dispatch failure is returned as is, and an envelope is
/// converted by the envelope protocol.
pub open spec fn spec_list_outcome(
    outcome: ExtractResult<ListEnvelope>,
    prefix: Seq<char>,
    r: ExtractResult<EmbeddedExtractResult>,
) -> bool {
    match outcome {
        Ok(env) => spec_list_conversion(env, prefix, r),
        Err(e) => r == Err::<EmbeddedExtractResult, ExtractError>(e),
    }
}

/// How the result of an optimized extraction relates to the runtime's
/// outcome.
pub open spec fn spec_optimized_outcome(
    outcome: ExtractResult<OptimizedEnvelope>,
    r: ExtractResult<EmbeddedExtractResult>,
) -> bool {
    match outcome {
        Ok(env) => spec_unpacking(env, r),
        Err(e) => r == Err::<EmbeddedExtractResult, ExtractError>(e),
    }
}

/// Extracts the embedded documents of the file at `file_path` through the
/// direct-list foreign operation: one dispatch, each config marshaled as
/// its setter plan, the envelope checked before any payload is touched.
pub fn extract_embedded_from_file<R: ForeignRuntime>(
    runtime: &mut R,
    file_path: &str,
    pdf_conf: &PdfParserConfig,
    office_conf: &OfficeParserConfig,
    ocr_conf: &TesseractOcrConfig,
) -> (r: ExtractResult<EmbeddedExtractResult>)
    ensures
        exists|outcome: ExtractResult<ListEnvelope>|
            #[trigger] spec_list_outcome(outcome, spec_list_prefix_file(), r),
{
    let pdf = pdf_setter_calls(pdf_conf);
    let office = office_setter_calls(office_conf);
    let ocr = ocr_setter_calls(ocr_conf);
    match runtime.extract_embedded(file_path, &pdf, &office, &ocr) {
        Ok(env) => {
            let ghost genv = env;
            let r = convert_list_envelope(env, "Embedded extraction failed with code ");
            proof {
                assert(spec_list_outcome(Ok(genv), spec_list_prefix_file(), r));
            }
            r
        },
        Err(e) => {
            let ghost ge = e;
            proof {
                assert(spec_list_outcome(
                    Err::<ListEnvelope, ExtractError>(ge),
                    spec_list_prefix_file(),
                    Err::<EmbeddedExtractResult, ExtractError>(ge),
                ));
            }
            Err(e)
        },
    }
}

/// Extracts the embedded documents of a container handed over as bytes,
/// through the bytes-based foreign operation.
pub fn extract_embedded_from_bytes<R: ForeignRuntime>(
    runtime: &mut R,
    buffer: &Vec<u8>,
    pdf_conf: &PdfParserConfig,
    office_conf: &OfficeParserConfig,
    ocr_conf: &TesseractOcrConfig,
) -> (r: ExtractResult<EmbeddedExtractResult>)
    ensures
        exists|outcome: ExtractResult<ListEnvelope>|
            #[trigger] spec_list_outcome(outcome, spec_list_prefix_bytes(), r),
{
    let pdf = pdf_setter_calls(pdf_conf);
    let office = office_setter_calls(office_conf);
    let ocr = ocr_setter_calls(ocr_conf);
    match runtime.extract_embedded_from_bytes(buffer, &pdf, &office, &ocr) {
        Ok(env) => {
            let ghost genv = env;
            let r = convert_list_envelope(env, "Embedded extraction from bytes failed with code ");
            proof {
                assert(spec_list_outcome(Ok(genv), spec_list_prefix_bytes(), r));
            }
            r
        },
        Err(e) => {
            let ghost ge = e;
            proof {
                assert(spec_list_outcome(
                    Err::<ListEnvelope, ExtractError>(ge),
                    spec_list_prefix_bytes(),
                    Err::<EmbeddedExtractResult, ExtractError>(ge),
                ));
            }
            Err(e)
        },
    }
}

/// Extracts the embedded documents of the file at `file_path` through the
/// single-call packed-buffer foreign operation.  Strictly fewer foreign
/// transitions than the direct list, at the cost of parent metadata: the
/// metadata of this path is always empty.
pub fn extract_embedded_optimized<R: ForeignRuntime>(
    runtime: &mut R,
    file_path: &str,
    pdf_conf: &PdfParserConfig,
    office_conf: &OfficeParserConfig,
    ocr_conf: &TesseractOcrConfig,
) -> (r: ExtractResult<EmbeddedExtractResult>)
    ensures
        r matches Ok(res) ==> res.metadata@.len() == 0,
        exists|outcome: ExtractResult<OptimizedEnvelope>| #[trigger] spec_optimized_outcome(
            outcome,
            r,
        ),
{
    let pdf = pdf_setter_calls(pdf_conf);
    let office = office_setter_calls(office_conf);
    let ocr = ocr_setter_calls(ocr_conf);
    match runtime.extract_embedded_optimized(file_path, &pdf, &office, &ocr) {
        Ok(env) => {
            let ghost genv = env;
            let r = unpack_envelope(env);
            proof {
                assert(spec_optimized_outcome(Ok(genv), r));
            }
            r
        },
        Err(e) => {
            let ghost ge = e;
            proof {
                assert(spec_optimized_outcome(
                    Err::<OptimizedEnvelope, ExtractError>(ge),
                    Err::<EmbeddedExtractResult, ExtractError>(ge),
                ));
            }
            Err(e)
        },
    }
}

/// Batch extraction.  The foreign side implements batching as the optimized
/// single-call extraction, so this does the same for consistency.
pub fn extract_embedded_batch<R: ForeignRuntime>(
    runtime: &mut R,
    file_path: &str,
    pdf_conf: &PdfParserConfig,
    office_conf: &OfficeParserConfig,
    ocr_conf: &TesseractOcrConfig,
) -> (r: ExtractResult<EmbeddedExtractResult>)
    ensures
        r matches Ok(res) ==> res.metadata@.len() == 0,
        exists|outcome: ExtractResult<OptimizedEnvelope>| #[trigger] spec_optimized_outcome(
            outcome,
            r,
        ),
{
    extract_embedded_optimized(runtime, file_path, pdf_conf, office_conf, ocr_conf)
}

/// The partition of a document sequence into delivery groups: every group
/// holds `b` documents in original order, except a final shorter one.  A
/// batch size under one is taken as one.
pub open spec fn spec_batches(docs: Seq<EmbeddedDocument>, b: int) -> Seq<Seq<EmbeddedDocument>>
    decreases docs.len(),
{
    let eb: int = if b < 1 {
        1
    } else {
        b
    };
    if docs.len() == 0 {
        Seq::empty()
    } else if docs.len() <= eb {
        seq![docs]
    } else {
        seq![docs.take(eb)] + spec_batches(docs.skip(eb), b)
    }
}

/// For a document sequence of length L and a batch size B of at least one,
/// the partition has exactly ceil(L/B) groups; every group holds at most B
/// documents, every group but the last exactly B, and the groups
/// concatenated in order are the original sequence.
pub proof fn lemma_batches_properties(docs: Seq<EmbeddedDocument>, b: int)
    requires
        b >= 1,
    ensures
        spec_batches(docs, b).len() == (docs.len() + b - 1) / b,
        forall|i: int|
            0 <= i < spec_batches(docs, b).len() ==> (#[trigger] spec_batches(docs, b)[i]).len()
                <= b,
        forall|i: int|
            0 <= i < spec_batches(docs, b).len() - 1 ==> (#[trigger] spec_batches(
                docs,
                b,
            )[i]).len() == b,
        spec_batches(docs, b).flatten() == docs,
    decreases docs.len(),
{
    let bs = spec_batches(docs, b);
    let n = docs.len() as int;
    if docs.len() == 0 {
        assert(Seq::<Seq<EmbeddedDocument>>::empty().flatten() =~= docs);
        assert((n + b - 1) / b == 0) by {
            vstd::arithmetic::div_mod::lemma_basic_div(b - 1, b);
        }
    } else if docs.len() <= b {
        bs.lemma_flatten_one_element();
        assert(bs.flatten() == docs);
        assert((n + b - 1) / b == 1) by {
            vstd::arithmetic::div_mod::lemma_div_plus_one(n - 1, b);
            vstd::arithmetic::div_mod::lemma_basic_div(n - 1, b);
        }
    } else {
        let head = seq![docs.take(b)];
        let rest = spec_batches(docs.skip(b), b);
        lemma_batches_properties(docs.skip(b), b);
        vstd::seq_lib::lemma_flatten_concat(head, rest);
        head.lemma_flatten_one_element();
        assert(bs.flatten() =~= docs.take(b) + docs.skip(b));
        assert(docs.take(b) + docs.skip(b) =~= docs);
        assert(bs.len() == 1 + (n - b + b - 1) / b);
        assert(1 + (n - 1) / b == (n + b - 1) / b) by {
            vstd::arithmetic::div_mod::lemma_div_plus_one(n - 1, b);
        }
        assert forall|i: int| 0 <= i < bs.len() implies (#[trigger] bs[i]).len() <= b by {
            if i > 0 {
                assert(bs[i] == rest[i - 1]);
            }
        }
        assert forall|i: int| 0 <= i < bs.len() - 1 implies (#[trigger] bs[i]).len() == b by {
            if i > 0 {
                assert(bs[i] == rest[i - 1]);
            }
        }
    }
}

/// Every prefix of the partition, concatenated, is a prefix of the original
/// sequence: what a sink has received after any number of groups is exactly
/// the documents delivered so far, in original order.
pub proof fn lemma_batches_prefix(docs: Seq<EmbeddedDocument>, b: int, k: int)
    requires
        b >= 1,
        0 <= k <= spec_batches(docs, b).len(),
    ensures
        spec_batches(docs, b).take(k).flatten() == docs.take(
            spec_batches(docs, b).take(k).flatten().len() as int,
        ),
{
    let bs = spec_batches(docs, b);
    lemma_batches_properties(docs, b);
    vstd::seq_lib::lemma_flatten_concat(bs.take(k), bs.skip(k));
    assert(bs.take(k) + bs.skip(k) =~= bs);
    let a = bs.take(k).flatten();
    assert(a + bs.skip(k).flatten() == docs);
    assert(a =~= docs.take(a.len() as int));
}

/// The receiver of the batch/streaming decorator's groups.  A sink is
/// caller-supplied; the one thing required of it is that its log of
/// delivered groups grows by exactly the group it was handed, whatever it
/// answers.
pub trait BatchSink {
    /// The groups received so far, in order.
    spec fn delivered(&self) -> Seq<Seq<EmbeddedDocument>>;

    /// Receives one group of documents.  Returns whether to continue with
    /// later groups; an error aborts the extraction.  Either way the group
    /// stays delivered: a later stop or error does not un-deliver it.
    fn deliver(&mut self, batch: Vec<EmbeddedDocument>) -> (r: ExtractResult<bool>)
        ensures
            final(self).delivered() == old(self).delivered().push(batch@),
    ;
}

/// Delivers the documents to the sink in groups of `batch_size` (the final
/// group may be shorter), in original order, stopping early where the sink
/// says stop or fails.  What the sink has seen afterwards is its old log
/// plus some prefix of the partition — and the whole partition where
/// nothing stopped the run.
pub fn deliver_batches<S: BatchSink>(
    docs: Vec<EmbeddedDocument>,
    batch_size: usize,
    sink: &mut S,
) -> (r: ExtractResult<()>)
    ensures
        exists|k: int|
            {
                &&& 0 <= k <= spec_batches(docs@, batch_size as int).len()
                &&& (spec_batches(docs@, batch_size as int).len() > 0 ==> k >= 1)
                &&& final(sink).delivered() == old(sink).delivered() + #[trigger] spec_batches(
                    docs@,
                    batch_size as int,
                ).take(k)
            },
{
    let ghost bs = spec_batches(docs@, batch_size as int);
    let ghost base = sink.delivered();
    let eb: usize = if batch_size < 1 {
        1
    } else {
        batch_size
    };
    let mut rest = docs;
    let ghost mut k: int = 0;
    proof {
        assert(bs.take(0) =~= Seq::<Seq<EmbeddedDocument>>::empty());
        assert(base + bs.take(0) =~= base);
        assert(bs.skip(0) =~= bs);
    }
    #[verifier::loop_isolation(false)]
    while rest.len() > 0
        invariant
            0 <= k <= bs.len(),
            sink.delivered() == base + bs.take(k),
            spec_batches(rest@, batch_size as int) == bs.skip(k),
            rest@.len() == 0 ==> k == bs.len(),
            rest@.len() > 0 ==> k < bs.len(),
        decreases rest@.len(),
    {
        let ghost prev = rest@;
        if rest.len() > eb {
            let tail = rest.split_off(eb);
            proof {
                assert(bs.skip(k)[0] == rest@);
                assert(bs.skip(k).drop_first() =~= bs.skip(k + 1));
                assert(bs[k] == bs.skip(k)[0]);
                assert(seq![prev.take(eb as int)] + spec_batches(prev.skip(eb as int),
                    batch_size as int,
                ) == bs.skip(k));
                assert(spec_batches(tail@, batch_size as int) == bs.skip(k + 1));
            }
            let res = sink.deliver(rest);
            rest = tail;
            proof {
                assert(bs.take(k + 1) =~= bs.take(k).push(bs[k]));
                assert(base + bs.take(k).push(bs[k]) =~= (base + bs.take(k)).push(bs[k]));
                k = k + 1;
            }
            match res {
                Ok(true) => {},
                Ok(false) => {
                    return Ok(());
                },
                Err(e) => {
                    return Err(e);
                },
            }
        } else {
            proof {
                assert(bs.skip(k)[0] == rest@);
                assert(bs[k] == bs.skip(k)[0]);
                assert(bs.skip(k).len() == 1);
            }
            let res = sink.deliver(rest);
            proof {
                assert(bs.take(k + 1) =~= bs.take(k).push(bs[k]));
                assert(base + bs.take(k).push(bs[k]) =~= (base + bs.take(k)).push(bs[k]));
                k = k + 1;
                assert(k == bs.len());
            }
            return match res {
                Ok(_) => Ok(()),
                Err(e) => Err(e),
            };
        }
    }
    Ok(())
}

/// How the decorator's result relates to the runtime's outcome: a dispatch
/// failure, or an envelope that does not unpack, is returned as is with the
/// sink untouched; an unpacked document sequence is handed to the sink as at
/// least one group (where there is one) and at most the whole partition.
pub open spec fn spec_streaming_outcome(
    outcome: ExtractResult<OptimizedEnvelope>,
    batch_size: int,
    before: Seq<Seq<EmbeddedDocument>>,
    after: Seq<Seq<EmbeddedDocument>>,
    r: ExtractResult<()>,
) -> bool {
    match outcome {
        Ok(env) => exists|mid: ExtractResult<EmbeddedExtractResult>|
            #[trigger] spec_unpacking(env, mid) && match mid {
                Ok(res) => exists|k: int|
                    {
                        &&& 0 <= k <= spec_batches(res.documents@, batch_size).len()
                        &&& (spec_batches(res.documents@, batch_size).len() > 0 ==> k >= 1)
                        &&& after == before + #[trigger] spec_batches(
                            res.documents@,
                            batch_size,
                        ).take(k)
                    },
                Err(e) => r == Err::<(), ExtractError>(e) && after == before,
            },
        Err(e) => r == Err::<(), ExtractError>(e) && after == before,
    }
}

/// The batch/streaming decorator: extracts the whole result eagerly through
/// the optimized path, then hands it to the sink in groups of `batch_size`
/// in original order, stopping where the sink says stop.  This shapes the
/// caller's memory use; it does not reduce the extraction's own cost.  On an
/// extraction failure the sink sees nothing and the failure is returned.
pub fn extract_embedded_streaming<R: ForeignRuntime, S: BatchSink>(
    runtime: &mut R,
    file_path: &str,
    pdf_conf: &PdfParserConfig,
    office_conf: &OfficeParserConfig,
    ocr_conf: &TesseractOcrConfig,
    batch_size: usize,
    sink: &mut S,
) -> (r: ExtractResult<()>)
    ensures
        exists|outcome: ExtractResult<OptimizedEnvelope>| #[trigger] spec_streaming_outcome(
            outcome,
            batch_size as int,
            old(sink).delivered(),
            final(sink).delivered(),
            r,
        ),
{
    let outer = extract_embedded_optimized(runtime, file_path, pdf_conf, office_conf, ocr_conf);
    let ghost gouter = outer;
    match outer {
        Ok(result) => {
            let ghost gres = result;
            let r = deliver_batches(result.documents, batch_size, sink);
            proof {
                let o = choose|o: ExtractResult<OptimizedEnvelope>| #[trigger] spec_optimized_outcome(
                    o,
                    gouter,
                );
                match o {
                    Ok(env) => {
                        assert(spec_unpacking(env, Ok(gres)));
                        let bs = spec_batches(gres.documents@, batch_size as int);
                        let k = choose|k: int|
                            {
                                &&& 0 <= k <= bs.len()
                                &&& (bs.len() > 0 ==> k >= 1)
                                &&& sink.delivered() == old(sink).delivered() + #[trigger] bs.take(
                                    k,
                                )
                            };
                        assert(0 <= k <= bs.len() && (bs.len() > 0 ==> k >= 1) && sink.delivered()
                            == old(sink).delivered() + bs.take(k));
                        assert(spec_streaming_outcome(
                            Ok(env),
                            batch_size as int,
                            old(sink).delivered(),
                            sink.delivered(),
                            r,
                        ));
                    },
                    Err(e2) => {
                        assert(false);
                    },
                }
            }
            r
        },
        Err(e) => {
            let ghost ge = e;
            proof {
                let o = choose|o: ExtractResult<OptimizedEnvelope>| #[trigger] spec_optimized_outcome(
                    o,
                    gouter,
                );
                match o {
                    Ok(env) => {
                        assert(spec_unpacking(env, Err::<EmbeddedExtractResult, ExtractError>(ge)));
                        assert(spec_streaming_outcome(
                            Ok(env),
                            batch_size as int,
                            old(sink).delivered(),
                            sink.delivered(),
                            Err::<(), ExtractError>(ge),
                        ));
                    },
                    Err(e2) => {
                        assert(e2 == ge);
                        assert(spec_streaming_outcome(
                            Err::<OptimizedEnvelope, ExtractError>(ge),
                            batch_size as int,
                            old(sink).delivered(),
                            sink.delivered(),
                            Err::<(), ExtractError>(ge),
                        ));
                    },
                }
            }
            Err(e)
        },
    }
}

/// A sink that keeps every group it receives, and can ask for an early stop
/// after a set number of groups.
pub struct CollectingSink {
    /// The groups received, in order.
    pub batches: Vec<Vec<EmbeddedDocument>>,
    /// Answer "stop" once this many groups have been received.
    pub stop_after: Option<usize>,
}

impl CollectingSink {
    /// A sink that accepts every group.
    pub fn new() -> (r: CollectingSink)
        ensures
            r.batches@.len() == 0,
            r.stop_after is None,
    {
        CollectingSink { batches: Vec::new(), stop_after: None }
    }

    /// A sink that asks to stop after `n` groups.
    pub fn with_stop_after(n: usize) -> (r: CollectingSink)
        ensures
            r.batches@.len() == 0,
            r.stop_after == Some(n),
    {
        CollectingSink { batches: Vec::new(), stop_after: Some(n) }
    }
}

impl BatchSink for CollectingSink {
    open spec fn delivered(&self) -> Seq<Seq<EmbeddedDocument>> {
        self.batches@.map_values(|b: Vec<EmbeddedDocument>| b@)
    }

    fn deliver(&mut self, batch: Vec<EmbeddedDocument>) -> (r: ExtractResult<bool>) {
        let ghost gbatch = batch@;
        self.batches.push(batch);
        proof {
            assert(self.batches@.map_values(|b: Vec<EmbeddedDocument>| b@) =~= old(
                self,
            ).batches@.map_values(|b: Vec<EmbeddedDocument>| b@).push(gbatch));
        }
        let cont = match self.stop_after {
            Some(n) => self.batches.len() < n,
            None => true,
        };
        Ok(cont)
    }
}

/// A runtime whose operations answer with pre-set envelopes.  It stands in
/// for the foreign runtime where none is attached: the bridge logic above it
/// behaves identically whichever runtime produced the envelope.
pub struct StaticRuntime {
    /// What the list operations answer.
    pub list: ListEnvelope,
    /// What the optimized operation answers.
    pub optimized: OptimizedEnvelope,
}

impl ForeignRuntime for StaticRuntime {
    fn extract_embedded(
        &mut self,
        file_path: &str,
        pdf: &Vec<SetterCall>,
        office: &Vec<SetterCall>,
        ocr: &Vec<SetterCall>,
    ) -> ExtractResult<ListEnvelope> {
        Ok(self.list.clone())
    }

    fn extract_embedded_from_bytes(
        &mut self,
        buffer: &Vec<u8>,
        pdf: &Vec<SetterCall>,
        office: &Vec<SetterCall>,
        ocr: &Vec<SetterCall>,
    ) -> ExtractResult<ListEnvelope> {
        Ok(self.list.clone())
    }

    fn extract_embedded_optimized(
        &mut self,
        file_path: &str,
        pdf: &Vec<SetterCall>,
        office: &Vec<SetterCall>,
        ocr: &Vec<SetterCall>,
    ) -> ExtractResult<OptimizedEnvelope> {
        Ok(self.optimized.clone())
    }
}

} // verus!
