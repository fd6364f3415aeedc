//! Properties of whole searches, proved from the adapters' contracts.
use vstd::prelude::*;
use crate::adapters::{line_hits, line_message, line_search_reports, ContentView};
use crate::dispatch::{all_reports, path_reports, plan_of, request_error, InputView, Mode, PlanView};
use crate::finders::{first_occurrence, literal_hit, rule_hit, MatchRule};
use crate::json_path_search::json_reports;
use crate::pdf_search::pdf_reports;
use crate::printer::{emit, emit_all, report_lines, PrinterView, Report};
use crate::text::text_lines;
use vstd::utf8::encode_utf8;
use crate::zip_search::{entry_hits, entry_message, zip_read, zip_reports};

verus! {

/// The paths of inputs that all have one.
pub open spec fn input_paths(inputs: Seq<InputView>) -> Seq<Seq<char>> {
    inputs.map_values(|i: InputView| i.0.unwrap())
}

/// File-name mode with expression `e` reports exactly the paths that contain
/// `e`, in enumeration order, each once as a hit, and no others.
pub proof fn lemma_file_name_reports_exactly_matching_paths(inputs: Seq<InputView>, e: Seq<char>)
    requires
        forall|k: int| 0 <= k < inputs.len() ==> (#[trigger] inputs[k]).0 is Some,
    ensures
        all_reports(plan_of(Mode::FileName, Some(e)), inputs) == input_paths(inputs).filter(
            |p: Seq<char>| literal_hit(p, e),
        ).map_values(|p: Seq<char>| Report::Hit(p, 0)),
    decreases inputs.len(),
{
    reveal(Seq::filter);
    let pred = |p: Seq<char>| literal_hit(p, e);
    let hit = |p: Seq<char>| Report::Hit(p, 0);
    if inputs.len() == 0 {
        assert(input_paths(inputs).filter(pred) =~= Seq::<Seq<char>>::empty());
        assert(input_paths(inputs).filter(pred).map_values(hit) =~= Seq::<Report>::empty());
    } else {
        let rest = inputs.drop_last();
        assert forall|k: int| 0 <= k < rest.len() implies (#[trigger] rest[k]).0 is Some by {
            assert(rest[k] == inputs[k]);
        }
        lemma_file_name_reports_exactly_matching_paths(rest, e);
        assert(input_paths(inputs).drop_last() =~= input_paths(rest));
        assert(inputs.last() == inputs[inputs.len() - 1]);
        let last = input_paths(inputs).last();
        let prev = input_paths(rest).filter(pred);
        if pred(last) {
            assert(prev.push(last).map_values(hit) =~= prev.map_values(hit) + seq![Report::Hit(last, 0)]);
        } else {
            assert(prev.map_values(hit) =~= prev.map_values(hit) + Seq::<Report>::empty());
        }
    }
}

/// The 0-based numbers of the lines that rule `m` accepts.
pub open spec fn accepted_lines(lines: Seq<Option<Seq<char>>>, m: MatchRule) -> Seq<int> {
    Seq::new(lines.len(), |i: int| i).filter(|i: int| lines[i] is Some && rule_hit(m, lines[i].unwrap()))
}

/// Line search reports, in order, one hit for each line that the rule accepts,
/// and that hit carries the line's 0-based number and its text.
pub proof fn lemma_line_reports_follow_accepted_lines(p: Seq<char>, lines: Seq<Option<Seq<char>>>, m: MatchRule)
    ensures
        line_hits(Some(p), lines, m) == accepted_lines(lines, m).map_values(
            |i: int| Report::Hit(line_message(p, i, lines[i].unwrap()), p.len() as usize),
        ),
    decreases lines.len(),
{
    reveal(Seq::filter);
    let hit = |i: int| Report::Hit(line_message(p, i, lines[i].unwrap()), p.len() as usize);
    if lines.len() == 0 {
        assert(accepted_lines(lines, m) =~= Seq::<int>::empty());
        assert(accepted_lines(lines, m).map_values(hit) =~= Seq::<Report>::empty());
    } else {
        let rest = lines.drop_last();
        let n = lines.len() - 1;
        lemma_line_reports_follow_accepted_lines(p, rest, m);
        let hit_rest = |i: int| Report::Hit(line_message(p, i, rest[i].unwrap()), p.len() as usize);
        let pred = |i: int| lines[i] is Some && rule_hit(m, lines[i].unwrap());
        let pred_rest = |i: int| rest[i] is Some && rule_hit(m, rest[i].unwrap());
        let idx = Seq::new(lines.len(), |i: int| i);
        let idx_rest = Seq::new(rest.len(), |i: int| i);
        assert(idx.drop_last() =~= idx_rest);
        assert(idx.last() == n);
        assert(idx_rest.filter(pred) == idx_rest.filter(pred_rest)) by {
            lemma_filter_same_on_prefix(idx_rest, pred, pred_rest, rest.len() as int);
        }
        let prev = idx_rest.filter(pred_rest);
        assert(forall|k: int| 0 <= k < prev.len() ==> 0 <= #[trigger] prev[k] < rest.len()) by {
            lemma_filter_in_range(idx_rest, pred_rest, rest.len() as int);
        }
        assert(prev.map_values(hit) =~= prev.map_values(hit_rest));
        if pred(n) {
            assert(prev.push(n).map_values(hit) =~= prev.map_values(hit).push(hit(n)));
        }
    }
}

/// Filtering indices below `bound` with two tests that agree below `bound`.
proof fn lemma_filter_same_on_prefix(s: Seq<int>, f: spec_fn(int) -> bool, g: spec_fn(int) -> bool, bound: int)
    requires
        forall|k: int| 0 <= k < s.len() ==> 0 <= #[trigger] s[k] < bound,
        forall|i: int| 0 <= i < bound ==> #[trigger] f(i) == g(i),
    ensures
        s.filter(f) == s.filter(g),
    decreases s.len(),
{
    reveal(Seq::filter);
    if s.len() > 0 {
        let r = s.drop_last();
        assert forall|k: int| 0 <= k < r.len() implies 0 <= #[trigger] r[k] < bound by {
            assert(r[k] == s[k]);
        }
        lemma_filter_same_on_prefix(r, f, g, bound);
        assert(s.last() == s[s.len() - 1]);
    }
}

/// Filtering keeps elements within the bounds of the whole.
proof fn lemma_filter_in_range(s: Seq<int>, f: spec_fn(int) -> bool, bound: int)
    requires
        forall|k: int| 0 <= k < s.len() ==> 0 <= #[trigger] s[k] < bound,
    ensures
        forall|k: int| 0 <= k < s.filter(f).len() ==> 0 <= #[trigger] s.filter(f)[k] < bound,
    decreases s.len(),
{
    reveal(Seq::filter);
    if s.len() > 0 {
        let r = s.drop_last();
        assert forall|k: int| 0 <= k < r.len() implies 0 <= #[trigger] r[k] < bound by {
            assert(r[k] == s[k]);
        }
        lemma_filter_in_range(r, f, bound);
        assert(s.last() == s[s.len() - 1]);
        let fr = r.filter(f);
        if f(s.last()) {
            assert(s.filter(f) == fr.push(s.last()));
            assert forall|k: int| 0 <= k < s.filter(f).len() implies 0 <= #[trigger] s.filter(f)[k] < bound by {
                if k < fr.len() {
                    assert(s.filter(f)[k] == fr[k]);
                }
            }
        } else {
            assert(s.filter(f) == fr);
        }
    }
}

/// Line-search mode on a readable file reports as many matches as there are
/// lines containing the expression, and each report carries that line's
/// 0-based number.
pub proof fn lemma_line_search_counts_matching_lines(p: Seq<char>, data: Seq<u8>, e: Seq<char>)
    ensures
        all_reports(plan_of(Mode::LineSearch, Some(e)), seq![(Some(p), ContentView::Bytes(data))])
            == accepted_lines(text_lines(data), MatchRule::Literal(e)).map_values(
            |i: int| Report::Hit(line_message(p, i, text_lines(data)[i].unwrap()), p.len() as usize),
        ),
        all_reports(plan_of(Mode::LineSearch, Some(e)), seq![(Some(p), ContentView::Bytes(data))]).len()
            == accepted_lines(text_lines(data), MatchRule::Literal(e)).len(),
{
    let one: Seq<InputView> = seq![(Some(p), ContentView::Bytes(data))];
    assert(one.drop_last() =~= Seq::<InputView>::empty());
    assert(one.last() == (Some(p), ContentView::Bytes(data)));
    assert(plan_of(Mode::LineSearch, Some(e)) == PlanView::Lines(MatchRule::Literal(e)));
    assert(line_search_reports(Some(p), ContentView::Bytes(data), MatchRule::Literal(e)) == line_hits(
        Some(p),
        text_lines(data),
        MatchRule::Literal(e),
    ));
    assert(all_reports(plan_of(Mode::LineSearch, Some(e)), one) == all_reports(
        plan_of(Mode::LineSearch, Some(e)),
        one.drop_last(),
    ) + line_hits(Some(p), text_lines(data), MatchRule::Literal(e)));
    assert(Seq::<Report>::empty() + line_hits(Some(p), text_lines(data), MatchRule::Literal(e)) =~= line_hits(
        Some(p),
        text_lines(data),
        MatchRule::Literal(e),
    ));
    lemma_line_reports_follow_accepted_lines(p, text_lines(data), MatchRule::Literal(e));
}

/// The names of the entries that can be opened and that rule `m` accepts.
pub open spec fn accepted_entries(entries: Seq<Option<Seq<char>>>, m: MatchRule) -> Seq<Option<Seq<char>>> {
    entries.filter(|o: Option<Seq<char>>| o is Some && rule_hit(m, o.unwrap()))
}

/// An archive that cannot be read yields exactly one error report and no
/// match: the error count rises by one and the hit count stays. An archive that
/// can be read yields one hit for each entry name that the rule accepts.
pub proof fn lemma_archive_reports(v: PrinterView, p: Seq<char>, data: Seq<u8>, m: MatchRule)
    ensures
        zip_read(data) is Err ==> zip_reports(Some(p), ContentView::Bytes(data), m) == seq![Report::Fault(zip_read(data)->Err_0)],
        zip_read(data) is Err && v.statistics.errors < u64::MAX ==> ({
            let w = emit_all(v, zip_reports(Some(p), ContentView::Bytes(data), m));
            w.statistics.errors == v.statistics.errors + 1 && w.statistics.hits == v.statistics.hits
        }),
        zip_read(data) is Ok ==> zip_reports(Some(p), ContentView::Bytes(data), m) == accepted_entries(zip_read(data)->Ok_0, m).map_values(
            |o: Option<Seq<char>>| Report::Hit(entry_message(p, o.unwrap()), 0),
        ),
{
    if zip_read(data) is Err {
        let rs = seq![Report::Fault(zip_read(data)->Err_0)];
        assert(zip_reports(Some(p), ContentView::Bytes(data), m) == rs);
        assert(rs.drop_last() =~= Seq::<Report>::empty());
        assert(rs.last() == Report::Fault(zip_read(data)->Err_0));
        assert(emit_all(v, rs.drop_last()) == v);
        assert(emit_all(v, rs) == emit(v, rs.last()));
    } else {
        lemma_entry_hits_filter(p, zip_read(data)->Ok_0, m);
    }
}

proof fn lemma_entry_hits_filter(p: Seq<char>, entries: Seq<Option<Seq<char>>>, m: MatchRule)
    ensures
        entry_hits(Some(p), entries, m) == accepted_entries(entries, m).map_values(
            |o: Option<Seq<char>>| Report::Hit(entry_message(p, o.unwrap()), 0),
        ),
    decreases entries.len(),
{
    reveal(Seq::filter);
    let hit = |o: Option<Seq<char>>| Report::Hit(entry_message(p, o.unwrap()), 0);
    if entries.len() == 0 {
        assert(accepted_entries(entries, m) =~= Seq::<Option<Seq<char>>>::empty());
        assert(accepted_entries(entries, m).map_values(hit) =~= Seq::<Report>::empty());
    } else {
        lemma_entry_hits_filter(p, entries.drop_last(), m);
        let prev = accepted_entries(entries.drop_last(), m);
        if entries.last() is Some && rule_hit(m, entries.last().unwrap()) {
            assert(prev.push(entries.last()).map_values(hit) =~= prev.map_values(hit).push(hit(entries.last())));
        }
    }
}

/// In JSON-path mode, a query that selects nothing leaves the sink as it was,
/// whatever the path; one that selects values adds exactly one line and
/// changes no count.
pub proof fn lemma_json_selection_reports(
    v: PrinterView,
    path: Option<Seq<char>>,
    p: Seq<char>,
    values: Seq<Seq<char>>,
)
    ensures
        values.len() == 0 ==> emit_all(v, json_reports(path, ContentView::Selection(values))) == v,
        values.len() > 0 ==> ({
            let rs = json_reports(Some(p), ContentView::Selection(values));
            let w = emit_all(v, rs);
            &&& rs.len() == 1
            &&& rs[0] is Plain
            &&& w.statistics == v.statistics
            &&& w.lines.len() == v.lines.len() + 1
        }),
{
    if values.len() > 0 {
        let rs = json_reports(Some(p), ContentView::Selection(values));
        assert(rs.len() == 1);
        assert(rs.drop_last() =~= Seq::<Report>::empty());
        assert(rs.last() == rs[0]);
        assert(emit_all(v, rs.drop_last()) == v);
        assert(emit_all(v, rs) == emit(v, rs[0]));
        assert(report_lines(v.output, rs[0]).len() == 1);
    }
}

/// In PDF mode, a document whose text does not contain the expression leaves
/// the sink as it was, whatever the path.
pub proof fn lemma_pdf_without_occurrence_reports_nothing(
    v: PrinterView,
    path: Option<Seq<char>>,
    text: Seq<char>,
    e: Seq<char>,
)
    requires
        forall|i: int| !first_occurrence(encode_utf8(text), encode_utf8(e), i),
    ensures
        emit_all(v, pdf_reports(path, ContentView::Text(text), e)) == v,
{
    assert(pdf_reports(path, ContentView::Text(text), e) =~= Seq::<Report>::empty());
}

/// The reports for a list of paths are those of its parts, one after the
/// other: what one path yields, an error included, does not change what any
/// other path yields.
pub proof fn lemma_reports_of_each_path_stand_alone(p: PlanView, a: Seq<InputView>, b: Seq<InputView>)
    ensures
        all_reports(p, a + b) == all_reports(p, a) + all_reports(p, b),
    decreases b.len(),
{
    if b.len() == 0 {
        assert(a + b =~= a);
        assert(all_reports(p, a) + all_reports(p, b) =~= all_reports(p, a));
    } else {
        lemma_reports_of_each_path_stand_alone(p, a, b.drop_last());
        assert((a + b).drop_last() =~= a + b.drop_last());
        assert((a + b).last() == b.last());
        assert(all_reports(p, a) + all_reports(p, b) =~= all_reports(p, a) + all_reports(p, b.drop_last())
            + path_reports(p, b.last()));
    }
}

/// A run's outcome is a function of the request, the enumerated paths and
/// their contents: two runs of one request over the same paths, from sinks in
/// the same state, end in the same state.
pub proof fn lemma_runs_are_deterministic(
    v: PrinterView,
    mode: Mode,
    expr: Option<Seq<char>>,
    inputs: Seq<InputView>,
    first: PrinterView,
    second: PrinterView,
)
    requires
        request_error(mode, expr) is None,
        first == emit_all(v, all_reports(plan_of(mode, expr), inputs)),
        second == emit_all(v, all_reports(plan_of(mode, expr), inputs)),
    ensures
        first == second,
{
}

} // verus!
