//! The pipeline's decision core: a batch of documents is resolved one
//! document at a time, each outcome a function of that document alone.
//! The threaded orchestration around this core only moves values; every
//! decision it takes is stated here.
use vstd::prelude::*;

use crate::crs::arbitrary_crs_name;
use crate::error::{Error, ErrorV};
use crate::parse::parse_xml_content;
use crate::parse::spec_parse_common;
use crate::parse::spec_parse_xml_content;
use crate::parse::spec_req_text;
use crate::parse::spec_resolve_spatial;
use crate::parse::FileData;
use crate::parse::ParseOptions;
use crate::parse::ParsedXML;
use crate::parse::ParsedV;
use crate::xml::xml_tree_of;

verus! {

/// The model of a batch of document inputs.
pub open spec fn docs_view(s: Seq<FileData>) -> Seq<(Seq<char>, Seq<char>)> {
    Seq::new(s.len(), |i: int| (s[i].file_name@, s[i].contents@))
}

/// The model of one document's outcome.
pub open spec fn outcome_view(r: Result<ParsedXML, Error>) -> Result<ParsedV, ErrorV> {
    match r {
        Ok(p) => Ok(p@),
        Err(e) => Err(e@),
    }
}

/// The models of a batch's outcomes.
pub open spec fn outcomes_view(s: Seq<Result<ParsedXML, Error>>) -> Seq<Result<ParsedV, ErrorV>> {
    Seq::new(s.len(), |i: int| outcome_view(s[i]))
}

/// What a batch denotes: each document resolved independently, in
/// input order.
pub open spec fn spec_process_batch(
    docs: Seq<(Seq<char>, Seq<char>)>,
    opts: ParseOptions,
) -> Seq<Result<ParsedV, ErrorV>> {
    Seq::new(docs.len(), |i: int| spec_parse_xml_content(docs[i].0, docs[i].1, opts))
}

/// Resolve a batch of documents, one at a time.  A failing document
/// yields its error in place; it never touches its neighbours.
#[verifier::loop_isolation(false)]
pub fn process_documents(docs: &Vec<FileData>, options: &ParseOptions) -> (r: Vec<
    Result<ParsedXML, Error>,
>)
    ensures
        outcomes_view(r@) == spec_process_batch(docs_view(docs@), *options),
{
    let mut out: Vec<Result<ParsedXML, Error>> = Vec::new();
    let mut i: usize = 0;
    while i < docs.len()
        invariant
            0 <= i <= docs@.len(),
            out@.len() == i,
            forall|k: int|
                0 <= k < i ==> outcome_view(#[trigger] out@[k]) == spec_parse_xml_content(
                    docs@[k].file_name@,
                    docs@[k].contents@,
                    *options,
                ),
        decreases docs@.len() - i,
    {
        let one = parse_xml_content(&docs[i], options);
        out.push(one);
        i = i + 1;
    }
    proof {
        assert(outcomes_view(out@) =~= spec_process_batch(docs_view(docs@), *options));
    }
    out
}

/// How many documents of a batch failed.
pub open spec fn count_errs(s: Seq<Result<ParsedV, ErrorV>>) -> int
    decreases s.len(),
{
    if s.len() == 0 {
        0
    } else {
        count_errs(s.drop_last()) + if s.last() is Err {
            1int
        } else {
            0int
        }
    }
}

/// Count the failed documents of a batch of outcomes.
#[verifier::loop_isolation(false)]
pub fn error_count(rs: &Vec<Result<ParsedXML, Error>>) -> (n: usize)
    ensures
        n == count_errs(outcomes_view(rs@)),
{
    let ghost ov = outcomes_view(rs@);
    let mut n: usize = 0;
    let mut i: usize = 0;
    while i < rs.len()
        invariant
            0 <= i <= rs@.len(),
            n <= i,
            n == count_errs(ov.take(i as int)),
        decreases rs@.len() - i,
    {
        proof {
            assert(ov.take(i + 1).drop_last() =~= ov.take(i as int));
            assert(ov.take(i + 1).last() == ov[i as int]);
        }
        match &rs[i] {
            Ok(_) => {
                proof {
                    assert(!(ov[i as int] is Err));
                }
            },
            Err(_) => {
                n = n + 1;
            },
        }
        i = i + 1;
    }
    proof {
        assert(ov.take(ov.len() as int) =~= ov);
    }
    n
}

/// A malformed document is isolated: a document's outcome depends on
/// that document alone, so changing, breaking or fixing any other
/// document of the batch leaves this one's records and errors as they
/// were.
pub proof fn lemma_fault_isolation(
    d1: Seq<(Seq<char>, Seq<char>)>,
    d2: Seq<(Seq<char>, Seq<char>)>,
    opts: ParseOptions,
    j: int,
)
    requires
        0 <= j < d1.len(),
        j < d2.len(),
        d1[j] == d2[j],
    ensures
        spec_process_batch(d1, opts)[j] == spec_process_batch(d2, opts)[j],
{
}

/// An error is scoped to its document: the batch's outcome at any
/// position is exactly what resolving that one document gives — a
/// record set, or the document's own error (a not-found reference
/// included) — whatever else the batch holds.
pub proof fn lemma_error_scoped_to_document(
    docs: Seq<(Seq<char>, Seq<char>)>,
    opts: ParseOptions,
    j: int,
)
    requires
        0 <= j < docs.len(),
    ensures
        spec_process_batch(docs, opts)[j] == spec_parse_xml_content(docs[j].0, docs[j].1, opts),
{
}

/// Running the pipeline twice on the same inputs with the same options
/// produces the same per-document record sets and errors: any two
/// batch results that meet the batch contract are equal.
pub proof fn lemma_reprocessing_agrees(
    docs: Seq<(Seq<char>, Seq<char>)>,
    opts: ParseOptions,
    r1: Seq<Result<ParsedV, ErrorV>>,
    r2: Seq<Result<ParsedV, ErrorV>>,
)
    requires
        r1 == spec_process_batch(docs, opts),
        r2 == spec_process_batch(docs, opts),
    ensures
        r1 == r2,
{
}

/// A document declared in the arbitrary coordinate system contributes
/// no records at all when arbitrary-system inclusion is off.
pub proof fn lemma_arbitrary_crs_excluded(
    file_name: Seq<char>,
    contents: Seq<char>,
    opts: ParseOptions,
)
    requires
        !opts.include_arbitrary_crs,
        xml_tree_of(contents) matches Some(root) && spec_parse_common(root) is Ok
            && (spec_req_text(root, "座標系"@) matches Ok(t) && t == arbitrary_crs_name()),
    ensures
        spec_parse_xml_content(file_name, contents, opts) matches Ok(p) && p.features.len() == 0,
{
}

/// A document declared in the arbitrary coordinate system, when such
/// documents are included, is resolved with no reprojection step at
/// all: its geometry carries exactly the coordinate bit patterns that
/// were parsed (axes swapped), untouched by any transform.
pub proof fn lemma_arbitrary_crs_passthrough(
    file_name: Seq<char>,
    contents: Seq<char>,
    opts: ParseOptions,
)
    requires
        opts.include_arbitrary_crs,
        xml_tree_of(contents) matches Some(root) && spec_parse_common(root) is Ok
            && (spec_req_text(root, "座標系"@) matches Ok(t) && t == arbitrary_crs_name()),
    ensures
        xml_tree_of(contents) matches Some(root) ==> (spec_parse_common(root) matches Ok(common)
            ==> spec_parse_xml_content(file_name, contents, opts) == spec_resolve_spatial(
            file_name,
            root,
            common,
            None,
            opts,
        )),
{
}

} // verus!
