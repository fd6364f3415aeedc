//! Per-path inputs and the file-name and line-search adapters.
use vstd::prelude::*;
use vstd::string::*;
use crate::finders::{find_simple, literal_hit, rule_hit, MatchRule, Strategy};
use crate::printer::{emit, emit_all, lemma_emit_all_push, OutputPrinter, Report};
use crate::text::{decimal, decimal_text, debug_quoted, debug_text, opt_view, split_lines, text_lines, trim_text, trimmed};

verus! {

/// What was read for one enumerated path, as its mode needs it.
pub enum Content {
    /// Nothing: the mode looks at names only.
    NotRead,
    /// The bytes of the file.
    Bytes(Vec<u8>),
    /// The text extracted from a document.
    Text(String),
    /// The `Debug` text of each value that a JSON-path query selected, in order.
    Selection(Vec<String>),
    /// Why the content could not be had.
    Failed(String),
}

/// Content as a value.
pub enum ContentView {
    NotRead,
    Bytes(Seq<u8>),
    Text(Seq<char>),
    Selection(Seq<Seq<char>>),
    Failed(Seq<char>),
}

impl View for Content {
    type V = ContentView;

    open spec fn view(&self) -> ContentView {
        match self {
            Content::NotRead => ContentView::NotRead,
            Content::Bytes(d) => ContentView::Bytes(d@),
            Content::Text(t) => ContentView::Text(t@),
            Content::Selection(v) => ContentView::Selection(v@.map_values(|x: String| x@)),
            Content::Failed(e) => ContentView::Failed(e@),
        }
    }
}

/// One enumerated path: its text (`None` where it is not valid Unicode) and
/// what was read for it.
pub struct PathInput {
    pub path: Option<String>,
    pub content: Content,
}

/// The failure for content of another kind than the mode reads.
pub open spec fn unexpected_content() -> Seq<char> {
    "no content of the kind this mode reads"@
}

/// The message for a path that cannot be shown as text, in modes that list it.
pub open spec fn nothing_to_print() -> Seq<char> {
    "Nothing to print"@
}

/// The message for a path that cannot be shown as text, in modes that search.
pub open spec fn path_not_found() -> Seq<char> {
    "Path not found"@
}

/// The message for a file whose content could not be had.
pub open spec fn unreadable_message(p: Seq<char>, e: Seq<char>) -> Seq<char> {
    "Could not process path "@ + debug_quoted(p) + " due to "@ + e
}

/// Reports of file-name mode without expression: every path.
pub open spec fn simple_reports(path: Option<Seq<char>>) -> Seq<Report> {
    match path {
        Some(p) => seq![Report::Hit(p, 0)],
        None => seq![Report::Fault(nothing_to_print())],
    }
}

/// Reports of file-name mode with expression `e`: the path where it contains `e`.
pub open spec fn name_reports(path: Option<Seq<char>>, e: Option<Seq<char>>) -> Seq<Report> {
    match path {
        Some(p) => match e {
            Some(x) => if literal_hit(p, x) {
                seq![Report::Hit(p, 0)]
            } else {
                Seq::empty()
            },
            None => Seq::empty(),
        },
        None => seq![Report::Fault(path_not_found())],
    }
}

/// Lists a path, or reports that it cannot be shown.
pub fn process_path_simple(path: &Option<String>, output: &mut OutputPrinter)
    ensures
        final(output)@ == emit_all(old(output)@, simple_reports(opt_view(*path))),
{
    let ghost v0 = output@;
    match path {
        Some(s) => {
            output.output_with_stats(s.as_str());
        },
        None => {
            output.err_output("Nothing to print");
        },
    }
    proof {
        lemma_emit_all_push(v0, Seq::empty(), simple_reports(opt_view(*path))[0]);
        assert(Seq::<Report>::empty().push(simple_reports(opt_view(*path))[0]) =~= simple_reports(opt_view(*path)));
    }
}

/// Lists a path when it contains the search expression.
pub fn process_path_with_expression(
    path: &Option<String>,
    search_expression_option: &Option<String>,
    output: &mut OutputPrinter,
)
    ensures
        final(output)@ == emit_all(old(output)@, name_reports(opt_view(*path), opt_view(*search_expression_option))),
{
    let ghost v0 = output@;
    let ghost rs = name_reports(opt_view(*path), opt_view(*search_expression_option));
    match path {
        Some(s) => {
            match search_expression_option {
                Some(search_filter) => {
                    if find_simple(s.as_str(), search_filter) {
                        output.output_with_stats(s.as_str());
                        proof {
                            lemma_emit_all_push(v0, Seq::empty(), rs[0]);
                            assert(Seq::<Report>::empty().push(rs[0]) =~= rs);
                        }
                    } else {
                        assert(rs =~= Seq::<Report>::empty());
                    }
                },
                None => {
                    assert(rs =~= Seq::<Report>::empty());
                },
            }
        },
        None => {
            output.err_output("Path not found");
            proof {
                lemma_emit_all_push(v0, Seq::empty(), rs[0]);
                assert(Seq::<Report>::empty().push(rs[0]) =~= rs);
            }
        },
    }
}

/// The report of a matching line: path, 0-based line number and trimmed text.
pub open spec fn line_message(p: Seq<char>, i: int, t: Seq<char>) -> Seq<char> {
    p + " :: "@ + decimal_text(i as nat) + " :: "@ + trimmed(t)
}

/// The report for a line that matched: a hit naming the path, or an error
/// where the path cannot be shown.
pub open spec fn line_report(path: Option<Seq<char>>, i: int, t: Seq<char>) -> Report {
    match path {
        Some(p) => Report::Hit(line_message(p, i, t), p.len() as usize),
        None => Report::Fault(path_not_found()),
    }
}

/// The report for a file whose content could not be had.
pub open spec fn read_failure(path: Option<Seq<char>>, e: Seq<char>) -> Report {
    match path {
        Some(p) => Report::Fault(unreadable_message(p, e)),
        None => Report::Fault(path_not_found()),
    }
}

/// Reports of the lines that rule `s` accepts, in order; lines that are not
/// valid UTF-8 are passed over but keep their number.
pub open spec fn line_hits(path: Option<Seq<char>>, lines: Seq<Option<Seq<char>>>, s: MatchRule) -> Seq<Report>
    decreases lines.len(),
{
    if lines.len() == 0 {
        Seq::empty()
    } else {
        let prev = line_hits(path, lines.drop_last(), s);
        match lines.last() {
            Some(t) => if rule_hit(s, t) {
                prev.push(line_report(path, lines.len() - 1, t))
            } else {
                prev
            },
            None => prev,
        }
    }
}

/// Reports of line-search modes for one path.
pub open spec fn line_search_reports(path: Option<Seq<char>>, content: ContentView, s: MatchRule) -> Seq<Report> {
    match content {
        ContentView::Bytes(d) => line_hits(path, text_lines(d), s),
        ContentView::Failed(e) => seq![read_failure(path, e)],
        _ => seq![read_failure(path, unexpected_content())],
    }
}

pub(crate) fn report_fault(output: &mut OutputPrinter, msg: &str)
    ensures
        final(output)@ == emit_all(old(output)@, seq![Report::Fault(msg@)]),
{
    let ghost v0 = output@;
    output.err_output(msg);
    proof {
        lemma_emit_all_push(v0, Seq::empty(), Report::Fault(msg@));
        assert(Seq::<Report>::empty().push(Report::Fault(msg@)) =~= seq![Report::Fault(msg@)]);
    }
}

/// Reports that the content of `path` could not be had, for reason `e`.
pub(crate) fn report_read_failure(path: &Option<String>, e: &str, output: &mut OutputPrinter)
    ensures
        final(output)@ == emit_all(old(output)@, seq![read_failure(opt_view(*path), e@)]),
{
    match path {
        Some(p) => {
            let mut m = String::from_str("Could not process path ");
            m.append(debug_text(p.as_str()).as_str());
            m.append(" due to ");
            m.append(e);
            report_fault(output, m.as_str());
        },
        None => {
            report_fault(output, "Path not found");
        },
    }
}

fn report_line_match(path: &Option<String>, plen: usize, i: usize, t: &str, output: &mut OutputPrinter)
    requires
        path matches Some(p) ==> plen == p@.len(),
    ensures
        final(output)@ == emit(old(output)@, line_report(opt_view(*path), i as int, t@)),
{
    match path {
        Some(p) => {
            let mut m = String::from_str(p.as_str());
            m.append(" :: ");
            m.append(decimal(i as u64).as_str());
            m.append(" :: ");
            m.append(trim_text(t).as_str());
            assert(m@ =~= line_message(p@, i as int, t@));
            output.output_with_stats_emphasis(m.as_str(), plen);
        },
        None => {
            output.err_output("Path not found");
        },
    }
}

/// Searches the lines of one file with `strategy`.
pub fn process_line_search_generic(input: &PathInput, strategy: &Strategy, output: &mut OutputPrinter)
    ensures
        final(output)@ == emit_all(old(output)@, line_search_reports(opt_view(input.path), input.content@, strategy@)),
{
    match &input.content {
        Content::Bytes(data) => {
            let lines = split_lines(data.as_slice());
            let ghost lv = lines@.map_values(|o: Option<String>| opt_view(o));
            let ghost pv = opt_view(input.path);
            let plen = match &input.path {
                Some(p) => p.as_str().unicode_len(),
                None => 0,
            };
            let ghost v0 = output@;
            let mut i: usize = 0;
            while i < lines.len()
                invariant
                    i <= lines@.len(),
                    lv == lines@.map_values(|o: Option<String>| opt_view(o)),
                    lv == text_lines(data@),
                    pv == opt_view(input.path),
                    input.path matches Some(p) ==> plen == p@.len(),
                    output@ == emit_all(v0, line_hits(pv, lv.take(i as int), strategy@)),
                decreases lines@.len() - i,
            {
                assert(lv.take(i + 1).drop_last() =~= lv.take(i as int));
                match &lines[i] {
                    Some(t) => {
                        assert(lv[i as int] == Some(t@));
                        if strategy.matches(t.as_str()) {
                            report_line_match(&input.path, plen, i, t.as_str(), output);
                            proof {
                                lemma_emit_all_push(
                                    v0,
                                    line_hits(pv, lv.take(i as int), strategy@),
                                    line_report(pv, i as int, t@),
                                );
                            }
                        }
                    },
                    None => {
                        assert(lv[i as int] is None);
                    },
                }
                i = i + 1;
            }
            assert(lv.take(i as int) =~= lv);
        },
        Content::Failed(e) => {
            report_read_failure(&input.path, e.as_str(), output);
        },
        _ => {
            report_read_failure(&input.path, "no content of the kind this mode reads", output);
        },
    }
}

/// Literal line search in one file.
pub fn process_line_search(input: &PathInput, search_expression: &String, output: &mut OutputPrinter)
    ensures
        final(output)@ == emit_all(
            old(output)@,
            line_search_reports(opt_view(input.path), input.content@, MatchRule::Literal(search_expression@)),
        ),
{
    let strategy = Strategy::Literal(search_expression.clone());
    process_line_search_generic(input, &strategy, output);
}

} // verus!
