//! Reporting the values that a JSON-path query selected from a document.
use vstd::prelude::*;
use vstd::string::*;
use crate::adapters::{path_not_found, unexpected_content, Content, ContentView, PathInput};
use crate::printer::{emit_all, lemma_emit_all_push, OutputPrinter, Report};
use crate::text::{bracket_list, bracketed, opt_view};

verus! {

/// The message for a document that could not be read or queried.
pub open spec fn json_error_message(e: Seq<char>) -> Seq<char> {
    "Error occurred: "@ + e
}

/// The report listing the selected values of a document: the path and the
/// values in brackets, or an error where the path cannot be shown.
pub open spec fn selection_report(path: Option<Seq<char>>, values: Seq<Seq<char>>) -> Report {
    match path {
        Some(p) => Report::Plain(p + " :: "@ + bracketed(values)),
        None => Report::Fault(path_not_found()),
    }
}

/// Reports of JSON-path mode for one path: one uncounted line listing all
/// selected values, none where nothing is selected.
pub open spec fn json_reports(path: Option<Seq<char>>, content: ContentView) -> Seq<Report> {
    match content {
        ContentView::Selection(values) => if values.len() == 0 {
            Seq::empty()
        } else {
            seq![selection_report(path, values)]
        },
        ContentView::Failed(e) => seq![Report::Fault(json_error_message(e))],
        _ => seq![Report::Fault(json_error_message(unexpected_content()))],
    }
}

fn report_one(output: &mut OutputPrinter, r: Ghost<Report>, msg: &str, fault: bool)
    requires
        fault ==> r@ == Report::Fault(msg@),
        !fault ==> r@ == Report::Plain(msg@),
    ensures
        final(output)@ == emit_all(old(output)@, seq![r@]),
{
    let ghost v0 = output@;
    if fault {
        output.err_output(msg);
    } else {
        output.output(msg);
    }
    proof {
        lemma_emit_all_push(v0, Seq::empty(), r@);
        assert(Seq::<Report>::empty().push(r@) =~= seq![r@]);
    }
}

fn json_error_text(e: &str) -> (r: String)
    ensures
        r@ == json_error_message(e@),
{
    let mut m = String::from_str("Error occurred: ");
    m.append(e);
    m
}

/// Reports what a JSON-path query selected from one document: one line with
/// all values where it selected any, an error where the document could not be
/// read or queried.
pub fn process_file_with_json_path(input: &PathInput, output: &mut OutputPrinter)
    ensures
        final(output)@ == emit_all(old(output)@, json_reports(opt_view(input.path), input.content@)),
{
    match &input.content {
        Content::Selection(values) => {
            if values.len() > 0 {
                match &input.path {
                    Some(p) => {
                        let mut m = String::from_str(p.as_str());
                        m.append(" :: ");
                        m.append(bracket_list(values).as_str());
                        report_one(output, Ghost(selection_report(opt_view(input.path), values@.map_values(|x: String| x@))), m.as_str(), false);
                    },
                    None => {
                        report_one(output, Ghost(Report::Fault(path_not_found())), "Path not found", true);
                    },
                }
            }
        },
        Content::Failed(e) => {
            let m = json_error_text(e.as_str());
            report_one(output, Ghost(Report::Fault(m@)), m.as_str(), true);
        },
        _ => {
            let m = json_error_text("no content of the kind this mode reads");
            report_one(output, Ghost(Report::Fault(m@)), m.as_str(), true);
        },
    }
}

} // verus!
