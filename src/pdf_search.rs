//! Searching the text extracted from PDF documents.
use unicode_segmentation::UnicodeSegmentation;
use vstd::prelude::*;
use vstd::string::*;
use vstd::utf8::{decode_utf8, encode_utf8, is_char_boundary};
use crate::adapters::{path_not_found, report_fault, unexpected_content, Content, ContentView, PathInput};
use crate::finders::{find_simple_pos, first_occurrence};
use crate::printer::{emit_all, lemma_emit_all_push, OutputPrinter, Report};
use crate::text::{decimal, decimal_text, opt_view};

verus! {

/// The byte offsets at which the extended grapheme clusters of `s` start.
pub uninterp spec fn grapheme_starts(s: Seq<char>) -> Seq<usize>;

/// Relies on `UnicodeSegmentation::grapheme_indices` with extended clusters:
/// the byte offset of each cluster, in order.
#[verifier::external_body]
fn grapheme_offsets(s: &str) -> (r: Vec<usize>)
    ensures
        r@ == grapheme_starts(s@),
{
    s.grapheme_indices(true).map(|(i, _)| i).collect()
}

/// The first grapheme start at or after byte `end`, or `total` where there is none.
pub open spec fn grapheme_cut(starts: Seq<usize>, end: int, total: int) -> int
    decreases starts.len(),
{
    if starts.len() == 0 {
        total
    } else if starts[0] >= end {
        starts[0] as int
    } else {
        grapheme_cut(starts.drop_first(), end, total)
    }
}

/// Where the context of a match that ends at byte `end` stops: at the first
/// grapheme boundary from `end` on, or at the end of the text.
pub open spec fn snippet_end(text: Seq<char>, end: int) -> int {
    let bytes = encode_utf8(text);
    let cut = grapheme_cut(grapheme_starts(text), end, bytes.len() as int);
    if cut <= bytes.len() && is_char_boundary(bytes, cut) {
        cut
    } else {
        bytes.len() as int
    }
}

/// The text from the start of the document to the end of the match that ends
/// at byte `end`, extended to a grapheme boundary.
pub open spec fn snippet(text: Seq<char>, end: int) -> Seq<char> {
    decode_utf8(encode_utf8(text).subrange(0, snippet_end(text, end)))
}

/// The report of a match at byte `pos` with context up to byte `end`.
pub open spec fn pdf_message(p: Seq<char>, text: Seq<char>, pos: int, end: int) -> Seq<char> {
    p + " :: "@ + decimal_text(pos as nat) + " :: @@"@ + snippet(text, end) + "@@"@
}

/// The message for a document whose text cannot be had.
pub open spec fn extraction_message(p: Seq<char>, e: Seq<char>) -> Seq<char> {
    "Could not extract text from '"@ + p + "': "@ + e
}

/// The report for the first occurrence at byte `pos` of an expression of
/// `len` bytes: a hit naming the path, or an error where the path cannot be shown.
pub open spec fn pdf_report(path: Option<Seq<char>>, text: Seq<char>, pos: int, len: int) -> Report {
    match path {
        Some(p) => Report::Hit(pdf_message(p, text, pos, pos + len), 0),
        None => Report::Fault(path_not_found()),
    }
}

/// The report for a document whose text could not be had.
pub open spec fn extraction_failure(path: Option<Seq<char>>, e: Seq<char>) -> Report {
    match path {
        Some(p) => Report::Fault(extraction_message(p, e)),
        None => Report::Fault(path_not_found()),
    }
}

/// Reports of PDF mode for one path: one hit at the first occurrence of
/// `expr` in the document's text, with its context; none where it does not occur.
pub open spec fn pdf_reports(path: Option<Seq<char>>, content: ContentView, expr: Seq<char>) -> Seq<Report> {
    match content {
        ContentView::Text(text) => if exists|i: int| first_occurrence(encode_utf8(text), encode_utf8(expr), i) {
            let pos = choose|i: int| first_occurrence(encode_utf8(text), encode_utf8(expr), i);
            seq![pdf_report(path, text, pos, encode_utf8(expr).len() as int)]
        } else {
            Seq::empty()
        },
        ContentView::Failed(e) => seq![extraction_failure(path, e)],
        _ => seq![extraction_failure(path, unexpected_content())],
    }
}

fn first_start_from(starts: &Vec<usize>, end: usize, total: usize) -> (r: usize)
    ensures
        r == grapheme_cut(starts@, end as int, total as int),
{
    assert(starts@.subrange(0, starts@.len() as int) =~= starts@);
    let mut k: usize = 0;
    while k < starts.len()
        invariant
            k <= starts@.len(),
            grapheme_cut(starts@, end as int, total as int) == grapheme_cut(
                starts@.subrange(k as int, starts@.len() as int),
                end as int,
                total as int,
            ),
        decreases starts@.len() - k,
    {
        assert(starts@.subrange(k as int, starts@.len() as int).drop_first() =~= starts@.subrange(
            k + 1,
            starts@.len() as int,
        ));
        assert(starts@.subrange(k as int, starts@.len() as int)[0] == starts@[k as int]);
        if starts[k] >= end {
            return starts[k];
        }
        k = k + 1;
    }
    assert(starts@.subrange(k as int, starts@.len() as int).len() == 0);
    total
}

fn snippet_text(text: &str, end: usize) -> (r: String)
    ensures
        r@ == snippet(text@, end as int),
{
    let starts = grapheme_offsets(text);
    let total = text.as_bytes().len();
    let cut = first_start_from(&starts, end, total);
    proof {
        broadcast use vstd::utf8::encode_utf8_decode_utf8;
    }
    if cut <= total && text.is_char_boundary(cut) {
        let (head, _) = text.split_at(cut);
        assert(head@ == decode_utf8(encode_utf8(head@)));
        String::from_str(head)
    } else {
        assert(encode_utf8(text@).subrange(0, total as int) =~= encode_utf8(text@));
        assert(text@ == decode_utf8(encode_utf8(text@)));
        String::from_str(text)
    }
}

fn report_extraction_failure(path: &Option<String>, e: &str, output: &mut OutputPrinter)
    ensures
        final(output)@ == emit_all(old(output)@, seq![extraction_failure(opt_view(*path), e@)]),
{
    match path {
        Some(p) => {
            let mut m = String::from_str("Could not extract text from '");
            m.append(p.as_str());
            m.append("': ");
            m.append(e);
            report_fault(output, m.as_str());
        },
        None => {
            report_fault(output, "Path not found");
        },
    }
}

/// Searches the text of one PDF document for the first occurrence of the
/// search expression.
pub fn process_pdf_simple_search(input: &PathInput, search_expression: &String, output: &mut OutputPrinter)
    ensures
        final(output)@ == emit_all(old(output)@, pdf_reports(opt_view(input.path), input.content@, search_expression@)),
{
    let ghost v0 = output@;
    match &input.content {
        Content::Text(content) => {
            match find_simple_pos(content.as_str(), search_expression) {
                None => {},
                Some(pos) => {
                    let clen = content.as_str().as_bytes().len();
                    let elen = search_expression.as_str().as_bytes().len();
                    let ghost r = pdf_report(opt_view(input.path), content@, pos as int, elen as int);
                    match &input.path {
                        Some(p) => {
                            let end = pos + elen;
                            let context = snippet_text(content.as_str(), end);
                            let mut m = String::from_str(p.as_str());
                            m.append(" :: ");
                            m.append(decimal(pos as u64).as_str());
                            m.append(" :: @@");
                            m.append(context.as_str());
                            m.append("@@");
                            assert(Report::Hit(m@, 0) == r);
                            output.output_with_stats(m.as_str());
                        },
                        None => {
                            output.err_output("Path not found");
                        },
                    }
                    proof {
                        let text = content@;
                        let x = encode_utf8(search_expression@);
                        assert(first_occurrence(encode_utf8(text), x, pos as int));
                        let c = choose|i: int| first_occurrence(encode_utf8(text), x, i);
                        if c < pos {
                        } else if c > pos {
                            assert(!first_occurrence(encode_utf8(text), x, c));
                        }
                        assert(c == pos);
                        lemma_emit_all_push(v0, Seq::empty(), r);
                        assert(Seq::<Report>::empty().push(r) =~= seq![r]);
                    }
                },
            }
        },
        Content::Failed(e) => {
            report_extraction_failure(&input.path, e.as_str(), output);
        },
        _ => {
            report_extraction_failure(&input.path, "no content of the kind this mode reads", output);
        },
    }
}

} // verus!
