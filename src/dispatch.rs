//! The mode dispatcher: request validation, plan selection and the per-path
//! search loop.
use vstd::prelude::*;
use vstd::string::*;
use crate::adapters::{
    line_search_reports, name_reports, process_line_search_generic, process_path_simple,
    process_path_with_expression, simple_reports, ContentView, PathInput,
};
use crate::finders::{regex_compiles, CompiledRegex, MatchRule, Strategy};
use crate::json_path_search::{json_reports, process_file_with_json_path};
use crate::pdf_search::{pdf_reports, process_pdf_simple_search};
use crate::printer::{emit_all, param_lines, params_view, Output, OutputPrinter, PrinterView, Report};
use crate::text::{debug_quoted, debug_text, opt_view};
use crate::zip_search::{process_zip_with_expression_generic, zip_reports};

verus! {

/// What a run searches.
#[derive(Clone, Copy, Debug, PartialEq, Eq, Structural)]
pub enum Mode {
    FileName,
    Zip,
    LineSearch,
    LineRegexSearch,
    ZipRegex,
    JsonPath,
    PdfSearch,
}

/// A search request as given on the command line.
pub struct Cli {
    pub glob_pattern: String,
    pub search_expression: Option<String>,
    pub mode: Mode,
    pub output: Option<Output>,
    pub file: Option<String>,
}

/// A configuration error, found before any path is processed.
#[derive(Clone, Copy, Debug, PartialEq, Eq, Structural)]
pub enum SearchError {
    /// The mode needs a search expression and none was given.
    MissingSearchExpression,
    /// The mode needs a regular expression and the one given does not compile.
    InvalidRegex,
}

impl SearchError {
    /// The process exit status for this error.
    pub fn exit_code(&self) -> (r: i32)
        ensures
            r == 1,
    {
        1
    }

    /// The message shown for this error.
    pub fn message(&self) -> (r: &'static str)
        ensures
            r@ == match self {
                SearchError::MissingSearchExpression => "Please enter the search expression with e.g: '--search-expression tb_'"@,
                SearchError::InvalidRegex => "Invalid regex"@,
            },
    {
        match self {
            SearchError::MissingSearchExpression => "Please enter the search expression with e.g: '--search-expression tb_'",
            SearchError::InvalidRegex => "Invalid regex",
        }
    }
}

/// Whether `mode` tests units with a regular expression.
pub open spec fn is_regex_mode(mode: Mode) -> bool {
    mode == Mode::ZipRegex || mode == Mode::LineRegexSearch
}

/// The configuration error of a request, if any: a missing expression where
/// the mode needs one, or a regular expression that does not compile.
pub open spec fn request_error(mode: Mode, expr: Option<Seq<char>>) -> Option<SearchError> {
    if mode != Mode::FileName && expr is None {
        Some(SearchError::MissingSearchExpression)
    } else if is_regex_mode(mode) && !regex_compiles(expr.unwrap()) {
        Some(SearchError::InvalidRegex)
    } else {
        None
    }
}

/// The adapter and match test that a mode selects, resolved once per run.
pub enum Plan {
    ListNames,
    FilterNames(String),
    Zip(Strategy),
    Lines(Strategy),
    JsonPath(String),
    Pdf(String),
}

/// A plan as a value.
pub enum PlanView {
    ListNames,
    FilterNames(Seq<char>),
    Zip(MatchRule),
    Lines(MatchRule),
    JsonPath(Seq<char>),
    Pdf(Seq<char>),
}

impl View for Plan {
    type V = PlanView;

    open spec fn view(&self) -> PlanView {
        match self {
            Plan::ListNames => PlanView::ListNames,
            Plan::FilterNames(e) => PlanView::FilterNames(e@),
            Plan::Zip(s) => PlanView::Zip(s@),
            Plan::Lines(s) => PlanView::Lines(s@),
            Plan::JsonPath(q) => PlanView::JsonPath(q@),
            Plan::Pdf(e) => PlanView::Pdf(e@),
        }
    }
}

/// The plan for `mode` with expression `expr`, where the request has no
/// configuration error.
pub open spec fn plan_of(mode: Mode, expr: Option<Seq<char>>) -> PlanView {
    let e = expr.unwrap();
    match mode {
        Mode::FileName => match expr {
            None => PlanView::ListNames,
            Some(x) => PlanView::FilterNames(x),
        },
        Mode::Zip => PlanView::Zip(MatchRule::Literal(e)),
        Mode::ZipRegex => PlanView::Zip(MatchRule::Regex(e)),
        Mode::LineSearch => PlanView::Lines(MatchRule::Literal(e)),
        Mode::LineRegexSearch => PlanView::Lines(MatchRule::Regex(e)),
        Mode::JsonPath => PlanView::JsonPath(e),
        Mode::PdfSearch => PlanView::Pdf(e),
    }
}

/// One enumerated path as a value: its text and its content.
pub type InputView = (Option<Seq<char>>, ContentView);

impl View for PathInput {
    type V = InputView;

    open spec fn view(&self) -> InputView {
        (
            opt_view(self.path),
            self.content@,
        )
    }
}

/// The views of the enumerated paths.
pub open spec fn inputs_view(inputs: Seq<PathInput>) -> Seq<InputView> {
    inputs.map_values(|i: PathInput| i@)
}

/// The reports that plan `p` makes for one path.
pub open spec fn path_reports(p: PlanView, i: InputView) -> Seq<Report> {
    match p {
        PlanView::ListNames => simple_reports(i.0),
        PlanView::FilterNames(e) => name_reports(i.0, Some(e)),
        PlanView::Zip(m) => zip_reports(i.0, i.1, m),
        PlanView::Lines(m) => line_search_reports(i.0, i.1, m),
        PlanView::JsonPath(_) => json_reports(i.0, i.1),
        PlanView::Pdf(e) => pdf_reports(i.0, i.1, e),
    }
}

/// The reports that plan `p` makes for the paths, in order.
pub open spec fn all_reports(p: PlanView, inputs: Seq<InputView>) -> Seq<Report>
    decreases inputs.len(),
{
    if inputs.len() == 0 {
        Seq::empty()
    } else {
        all_reports(p, inputs.drop_last()) + path_reports(p, inputs.last())
    }
}

/// Emitting two sequences of reports one after the other.
pub proof fn lemma_emit_all_concat(v: PrinterView, a: Seq<Report>, b: Seq<Report>)
    ensures
        emit_all(v, a + b) == emit_all(emit_all(v, a), b),
    decreases b.len(),
{
    if b.len() == 0 {
        assert(a + b =~= a);
    } else {
        lemma_emit_all_concat(v, a, b.drop_last());
        assert((a + b).drop_last() =~= a + b.drop_last());
        assert((a + b).last() == b.last());
    }
}

/// Resolves the plan of a request: checks that the mode has the expression
/// it needs and compiles a regular expression once.
pub fn prepare(args: &Cli) -> (r: Result<Plan, SearchError>)
    ensures
        match request_error(args.mode, opt_view(args.search_expression)) {
            Some(e) => r == Err::<Plan, SearchError>(e),
            None => r matches Ok(p) && p@ == plan_of(args.mode, opt_view(args.search_expression)),
        },
{
    match &args.search_expression {
        None => {
            if args.mode == Mode::FileName {
                Ok(Plan::ListNames)
            } else {
                Err(SearchError::MissingSearchExpression)
            }
        },
        Some(e) => {
            match args.mode {
                Mode::FileName => Ok(Plan::FilterNames(e.clone())),
                Mode::Zip => Ok(Plan::Zip(Strategy::Literal(e.clone()))),
                Mode::LineSearch => Ok(Plan::Lines(Strategy::Literal(e.clone()))),
                Mode::JsonPath => Ok(Plan::JsonPath(e.clone())),
                Mode::PdfSearch => Ok(Plan::Pdf(e.clone())),
                Mode::ZipRegex => match CompiledRegex::new(e.as_str()) {
                    Some(c) => Ok(Plan::Zip(Strategy::Regex(c))),
                    None => Err(SearchError::InvalidRegex),
                },
                Mode::LineRegexSearch => match CompiledRegex::new(e.as_str()) {
                    Some(c) => Ok(Plan::Lines(Strategy::Regex(c))),
                    None => Err(SearchError::InvalidRegex),
                },
            }
        },
    }
}

/// Processes one path with plan `plan`; content errors are reported to the
/// sink and never stop the run.
pub fn process_path(plan: &Plan, input: &PathInput, output: &mut OutputPrinter)
    ensures
        final(output)@ == emit_all(old(output)@, path_reports(plan@, input@)),
{
    match plan {
        Plan::ListNames => process_path_simple(&input.path, output),
        Plan::FilterNames(e) => {
            let expr = Some(e.clone());
            process_path_with_expression(&input.path, &expr, output);
        },
        Plan::Zip(s) => process_zip_with_expression_generic(input, s, output),
        Plan::Lines(s) => process_line_search_generic(input, s, output),
        Plan::JsonPath(_) => process_file_with_json_path(input, output),
        Plan::Pdf(e) => process_pdf_simple_search(input, e, output),
    }
}

/// Processes the enumerated paths in order.
pub fn read_files(plan: &Plan, inputs: &Vec<PathInput>, output: &mut OutputPrinter)
    ensures
        final(output)@ == emit_all(old(output)@, all_reports(plan@, inputs_view(inputs@))),
{
    let ghost v0 = output@;
    let ghost iv = inputs_view(inputs@);
    let mut k: usize = 0;
    while k < inputs.len()
        invariant
            k <= inputs@.len(),
            iv == inputs_view(inputs@),
            output@ == emit_all(v0, all_reports(plan@, iv.take(k as int))),
        decreases inputs@.len() - k,
    {
        process_path(plan, &inputs[k], output);
        proof {
            assert(iv.take(k + 1).drop_last() =~= iv.take(k as int));
            assert(iv[k as int] == inputs@[k as int]@);
            lemma_emit_all_concat(v0, all_reports(plan@, iv.take(k as int)), path_reports(plan@, iv[k as int]));
        }
        k = k + 1;
    }
    assert(iv.take(k as int) =~= iv);
}

/// Runs a mode that needs a search expression; without one nothing is
/// processed.
pub fn execute_on_expression(args: &Cli, inputs: &Vec<PathInput>, output: &mut OutputPrinter) -> (r: Result<(), SearchError>)
    ensures
        args.search_expression is None ==> r == Err::<(), SearchError>(SearchError::MissingSearchExpression)
            && final(output)@ == old(output)@,
        args.search_expression is Some ==> match request_error(args.mode, opt_view(args.search_expression)) {
            Some(e) => r == Err::<(), SearchError>(e) && final(output)@ == old(output)@,
            None => r is Ok && final(output)@ == emit_all(
                old(output)@,
                all_reports(plan_of(args.mode, opt_view(args.search_expression)), inputs_view(inputs@)),
            ),
        },
{
    if args.search_expression.is_none() {
        return Err(SearchError::MissingSearchExpression);
    }
    match prepare(args) {
        Err(e) => Err(e),
        Ok(plan) => {
            read_files(&plan, inputs, output);
            Ok(())
        },
    }
}

/// Runs a request over the enumerated paths: a configuration error stops it
/// before any path is processed; otherwise every path is processed in order.
pub fn process_all_modes(args: &Cli, inputs: &Vec<PathInput>, output: &mut OutputPrinter) -> (r: Result<(), SearchError>)
    ensures
        match request_error(args.mode, opt_view(args.search_expression)) {
            Some(e) => r == Err::<(), SearchError>(e) && final(output)@ == old(output)@,
            None => r is Ok && final(output)@ == emit_all(
                old(output)@,
                all_reports(plan_of(args.mode, opt_view(args.search_expression)), inputs_view(inputs@)),
            ),
        },
{
    match args.mode {
        Mode::FileName => {
            let plan = if args.search_expression.is_none() {
                Plan::ListNames
            } else {
                Plan::FilterNames(args.search_expression.clone().unwrap())
            };
            read_files(&plan, inputs, output);
            Ok(())
        },
        _ => execute_on_expression(args, inputs, output),
    }
}

/// The name of a mode, as its `Debug` form writes it.
pub open spec fn mode_label(mode: Mode) -> Seq<char> {
    match mode {
        Mode::FileName => "FileName"@,
        Mode::Zip => "Zip"@,
        Mode::LineSearch => "LineSearch"@,
        Mode::LineRegexSearch => "LineRegexSearch"@,
        Mode::ZipRegex => "ZipRegex"@,
        Mode::JsonPath => "JsonPath"@,
        Mode::PdfSearch => "PdfSearch"@,
    }
}

fn mode_name(mode: Mode) -> (r: &'static str)
    ensures
        r@ == mode_label(mode),
{
    match mode {
        Mode::FileName => "FileName",
        Mode::Zip => "Zip",
        Mode::LineSearch => "LineSearch",
        Mode::LineRegexSearch => "LineRegexSearch",
        Mode::ZipRegex => "ZipRegex",
        Mode::JsonPath => "JsonPath",
        Mode::PdfSearch => "PdfSearch",
    }
}

/// The parameter summary of a request: mode, glob pattern, and the search
/// expression and output file where given, the last three quoted.
pub open spec fn cmd_params(
    mode: Mode,
    glob: Seq<char>,
    expr: Option<Seq<char>>,
    file: Option<Seq<char>>,
) -> Seq<(Seq<char>, Seq<char>)> {
    let base = seq![("Mode"@, mode_label(mode)), ("Glob"@, debug_quoted(glob))];
    let with_search = match expr {
        Some(e) => base.push(("Search"@, debug_quoted(e))),
        None => base,
    };
    match file {
        Some(f) => with_search.push(("File"@, debug_quoted(f))),
        None => with_search,
    }
}

/// Announces the parameters of a request to the sink.
pub fn print_cmd_options(args: &Cli, printer: &mut OutputPrinter)
    ensures
        final(printer).output == old(printer).output,
        final(printer).statistics == old(printer).statistics,
        final(printer)@.lines == old(printer)@.lines + param_lines(
            old(printer).output,
            cmd_params(args.mode, args.glob_pattern@, opt_view(args.search_expression), opt_view(args.file)),
        ),
{
    let mut params: Vec<(String, String)> = Vec::new();
    params.push((String::from_str("Mode"), String::from_str(mode_name(args.mode))));
    params.push((String::from_str("Glob"), debug_text(args.glob_pattern.as_str())));
    match &args.search_expression {
        Some(e) => params.push((String::from_str("Search"), debug_text(e.as_str()))),
        None => {},
    }
    match &args.file {
        Some(f) => params.push((String::from_str("File"), debug_text(f.as_str()))),
        None => {},
    }
    assert(params_view(params@) =~= cmd_params(
        args.mode,
        args.glob_pattern@,
        opt_view(args.search_expression),
        opt_view(args.file),
    ));
    printer.print_param_map(&params);
}

/// The sink kind a request selects: a file or HTML report only where an output
/// file is given, the console otherwise.
pub open spec fn selected_output(output: Option<Output>, has_file: bool) -> Output {
    match output {
        Some(Output::File) => if has_file {
            Output::File
        } else {
            Output::Console
        },
        Some(Output::Html) => if has_file {
            Output::Html
        } else {
            Output::Console
        },
        _ => Output::Console,
    }
}

/// Chooses the sink kind for a request.
pub fn select_output(args: &Cli) -> (r: Output)
    ensures
        r == selected_output(args.output, args.file is Some),
{
    match args.output {
        Some(Output::File) => if args.file.is_some() {
            Output::File
        } else {
            Output::Console
        },
        Some(Output::Html) => if args.file.is_some() {
            Output::Html
        } else {
            Output::Console
        },
        _ => Output::Console,
    }
}

} // verus!
