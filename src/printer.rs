//! Output sinks: console, delimited file and HTML renderers with hit and error
//! statistics, modelled as a sequence of reports.
use vstd::prelude::*;
use vstd::string::*;
use crate::text::{cell, decimal, decimal_text, html_row, pad_right, padded, table_row};

verus! {

/// Hit and error counts of one run.
#[derive(Clone, Copy, Debug, PartialEq, Eq, Structural)]
pub struct Statistics {
    pub hits: u64,
    pub errors: u64,
}

/// One more than `n`, staying at the largest value once there.
pub open spec fn bumped(n: u64) -> u64 {
    if n < u64::MAX {
        (n + 1) as u64
    } else {
        n
    }
}

impl Statistics {
    /// Counts that start at zero.
    pub fn new() -> (s: Statistics)
        ensures
            s.hits == 0,
            s.errors == 0,
    {
        Statistics { hits: 0, errors: 0 }
    }

    /// Counts one more hit.
    pub fn increase_hits(&mut self)
        ensures
            final(self).hits == bumped(old(self).hits),
            final(self).errors == old(self).errors,
    {
        if self.hits < u64::MAX {
            self.hits = self.hits + 1;
        }
    }

    /// Counts one more error.
    pub fn increase_errors(&mut self)
        ensures
            final(self).errors == bumped(old(self).errors),
            final(self).hits == old(self).hits,
    {
        if self.errors < u64::MAX {
            self.errors = self.errors + 1;
        }
    }
}

/// Where a run's results go.
#[derive(Clone, Copy, Debug, PartialEq, Eq, Structural)]
pub enum Output {
    Console,
    File,
    Html,
}

/// The channel that one rendered line is written to.
#[derive(Clone, Copy, Debug, PartialEq, Eq, Structural)]
pub enum Stream {
    Stdout,
    Stderr,
    File,
}

/// One rendered line: its channel, its text without terminator, and how many
/// leading characters a terminal shows in bold.
#[derive(Debug)]
pub struct OutLine {
    pub stream: Stream,
    pub text: String,
    pub emphasis: usize,
}

impl View for OutLine {
    type V = (Stream, Seq<char>, usize);

    open spec fn view(&self) -> (Stream, Seq<char>, usize) {
        (self.stream, self.text@, self.emphasis)
    }
}

/// An event that a search reports to a sink.
pub enum Report {
    /// A match, counted as a hit; a terminal shows its first characters (as
    /// many as the number) in bold.
    Hit(Seq<char>, usize),
    /// A result line that is not counted.
    Plain(Seq<char>),
    /// A content error, counted as an error.
    Fault(Seq<char>),
}

/// What a sink holds: its kind, its counts and the lines rendered so far.
pub struct PrinterView {
    pub output: Output,
    pub statistics: Statistics,
    pub lines: Seq<(Stream, Seq<char>, usize)>,
}

/// The opening of an HTML report, up to the parameter rows.
pub const HTML_PAGE_OPEN: &'static str = "
<!DOCTYPE html>
<html lang=\"en\">
<head>
    <meta charset=\"UTF-8\">
    <meta http-equiv=\"X-UA-Compatible\" content=\"IE=edge\">
    <meta name=\"viewport\" content=\"width=device-width, initial-scale=1.0\">
    <title>Document</title>
    <style>
        body {
            font-family: Arial, Helvetica, sans-serif
        }
        table, th, td {
            border: 1px solid white;
            border-collapse: collapse;
        }
        th, td {
            background-color: #efefef;
        }
        th, td {
            padding: 3px 10px
        }
    </style>
</head>
<body>
    <h1>File Search</h1>
    <h2>Parameters</h2>
    <table>
        <thead>
            <tr>
                <th>Parameter</th>
                <th>Value</th>
              </tr>
        </thead>
        <tbody>
            ";

/// The part of an HTML report between the parameter rows and the result rows.
pub const HTML_RESULTS_OPEN: &'static str = "
        </tbody>
    </table>
    <h2>Results</h2>
    <table>
        <thead>
            <tr>
                <th>File name</th>
                <th>Position</th>
                <th></th>
            </tr>
        </thead>
        <tbody>
";

/// The part of an HTML report between the result rows and the first count.
pub const HTML_STATS_OPEN: &'static str = "
            </tbody>
        </table>
        <h2>Stats</h2>
        <table>
            <thead>
            <tr>
                <th>Parameter</th>
                <th>Value</th>
              </tr>
        </thead>
            <tbody>
                ";

/// The text between the two count rows of an HTML report.
pub const HTML_STATS_MIDDLE: &'static str = "
                ";

/// The end of an HTML report.
pub const HTML_PAGE_CLOSE: &'static str = "
            </tbody>
        </table>
    </body>
</html>
";

/// A two-cell table row.
pub open spec fn pair_row(k: Seq<char>, v: Seq<char>) -> Seq<char> {
    "<tr><td>"@ + k + "</td><td>"@ + v + "</td></tr>"@
}

/// A parameter line of a text report.
pub open spec fn param_text(k: Seq<char>, v: Seq<char>) -> Seq<char> {
    padded(k, 8) + " -> "@ + v
}

/// The parameter rows of an HTML report, in order.
pub open spec fn param_rows(params: Seq<(Seq<char>, Seq<char>)>) -> Seq<char>
    decreases params.len(),
{
    if params.len() == 0 {
        Seq::empty()
    } else {
        param_rows(params.drop_last()) + pair_row(params.last().0, params.last().1)
    }
}

/// The lines in which a sink of kind `output` announces the parameters.
pub open spec fn param_lines(output: Output, params: Seq<(Seq<char>, Seq<char>)>) -> Seq<(Stream, Seq<char>, usize)> {
    match output {
        Output::Console => params.map_values(|p: (Seq<char>, Seq<char>)| (Stream::Stdout, param_text(p.0, p.1), 0usize)),
        Output::File => params.map_values(|p: (Seq<char>, Seq<char>)| (Stream::File, param_text(p.0, p.1), 0usize)).push(
            (Stream::File, Seq::empty(), 0usize),
        ),
        Output::Html => seq![(Stream::File, HTML_PAGE_OPEN@ + param_rows(params) + HTML_RESULTS_OPEN@, 0usize)],
    }
}

/// The lines in which a sink of kind `output` reports the final counts.
pub open spec fn stats_lines(output: Output, s: Statistics) -> Seq<(Stream, Seq<char>, usize)> {
    let hits = decimal_text(s.hits as nat);
    let errors = decimal_text(s.errors as nat);
    match output {
        Output::Console => seq![
            (Stream::Stdout, "Hits:   "@ + hits, 0usize),
            (Stream::Stdout, "Errors: "@ + errors, 0usize),
        ],
        Output::File => seq![
            (Stream::File, "Hits:   "@ + hits, 0usize),
            (Stream::File, "Errors: "@ + errors, 0usize),
        ],
        Output::Html => seq![
            (
                Stream::File,
                HTML_STATS_OPEN@ + pair_row("Hits"@, hits) + HTML_STATS_MIDDLE@ + pair_row("Errors"@, errors)
                    + HTML_PAGE_CLOSE@,
                0usize,
            ),
        ],
    }
}

/// The lines in which a sink of kind `output` renders one report.
pub open spec fn report_lines(output: Output, r: Report) -> Seq<(Stream, Seq<char>, usize)> {
    match output {
        Output::Console => match r {
            Report::Hit(m, e) => seq![(Stream::Stdout, m, e)],
            Report::Plain(m) => seq![(Stream::Stdout, m, 0usize)],
            Report::Fault(m) => seq![(Stream::Stderr, m, 0usize)],
        },
        Output::File => match r {
            Report::Hit(m, _) => seq![(Stream::File, m, 0usize)],
            Report::Plain(m) => seq![(Stream::File, m, 0usize)],
            Report::Fault(m) => seq![(Stream::File, m, 0usize)],
        },
        Output::Html => match r {
            Report::Hit(m, _) => seq![(Stream::File, table_row(m), 0usize)],
            Report::Plain(m) => seq![(Stream::File, table_row(m), 0usize)],
            Report::Fault(m) => seq![(Stream::File, "<tr>"@ + cell(m) + "</tr>"@, 0usize)],
        },
    }
}

/// The counts after one report: a hit or an error is counted, a plain line not.
pub open spec fn counted(s: Statistics, r: Report) -> Statistics {
    match r {
        Report::Hit(_, _) => Statistics { hits: bumped(s.hits), errors: s.errors },
        Report::Plain(_) => s,
        Report::Fault(_) => Statistics { hits: s.hits, errors: bumped(s.errors) },
    }
}

/// The sink after one report.
pub open spec fn emit(v: PrinterView, r: Report) -> PrinterView {
    PrinterView { output: v.output, statistics: counted(v.statistics, r), lines: v.lines + report_lines(v.output, r) }
}

/// The sink after reports `rs`, in order.
pub open spec fn emit_all(v: PrinterView, rs: Seq<Report>) -> PrinterView
    decreases rs.len(),
{
    if rs.len() == 0 {
        v
    } else {
        emit(emit_all(v, rs.drop_last()), rs.last())
    }
}

/// Emitting one more report after a sequence of them.
pub proof fn lemma_emit_all_push(v: PrinterView, rs: Seq<Report>, r: Report)
    ensures
        emit_all(v, rs.push(r)) == emit(emit_all(v, rs), r),
{
    assert(rs.push(r).drop_last() =~= rs);
}

/// An output sink: it renders reports for one kind of output and keeps the
/// run's statistics. The rendered lines wait in `lines` until they are written.
pub struct OutputPrinter {
    pub output: Output,
    pub statistics: Statistics,
    pub lines: Vec<OutLine>,
}

impl View for OutputPrinter {
    type V = PrinterView;

    open spec fn view(&self) -> PrinterView {
        PrinterView {
            output: self.output,
            statistics: self.statistics,
            lines: self.lines@.map_values(|l: OutLine| l@),
        }
    }
}

/// The view of parameter pairs.
pub open spec fn params_view(params: Seq<(String, String)>) -> Seq<(Seq<char>, Seq<char>)> {
    params.map_values(|p: (String, String)| (p.0@, p.1@))
}

fn param_line(k: &str, v: &str) -> (r: String)
    ensures
        r@ == param_text(k@, v@),
{
    let mut r = pad_right(k, 8);
    r.append(" -> ");
    r.append(v);
    r
}

fn pair_row_text(k: &str, v: &str) -> (r: String)
    ensures
        r@ == pair_row(k@, v@),
{
    let mut r = String::from_str("<tr><td>");
    r.append(k);
    r.append("</td><td>");
    r.append(v);
    r.append("</td></tr>");
    r
}

/// The name of a sink of kind `output`.
pub open spec fn printer_name(output: Output) -> Seq<char> {
    match output {
        Output::Console => "StdPrinter"@,
        Output::File => "FilePrinter"@,
        Output::Html => "HtmlPrinter"@,
    }
}

impl OutputPrinter {
    /// A sink of kind `output` with zero counts and nothing rendered.
    pub fn new(output: Output) -> (p: OutputPrinter)
        ensures
            p@.output == output,
            p@.statistics == (Statistics { hits: 0, errors: 0 }),
            p@.lines == Seq::<(Stream, Seq<char>, usize)>::empty(),
    {
        let p = OutputPrinter { output, statistics: Statistics::new(), lines: Vec::new() };
        assert(p@.lines =~= Seq::<(Stream, Seq<char>, usize)>::empty());
        p
    }

    fn push_line(&mut self, stream: Stream, text: String, emphasis: usize)
        ensures
            final(self)@.lines == old(self)@.lines.push((stream, text@, emphasis)),
            final(self).output == old(self).output,
            final(self).statistics == old(self).statistics,
    {
        let ghost before = self.lines@;
        self.lines.push(OutLine { stream, text, emphasis });
        assert(self.lines@.map_values(|l: OutLine| l@) =~= before.map_values(|l: OutLine| l@).push(
            (stream, text@, emphasis),
        ));
    }

    fn render(&mut self, r: Ghost<Report>, fault: bool, msg: &str, emphasis: usize)
        requires
            fault == r@ is Fault,
            match r@ {
                Report::Hit(m, e) => m == msg@ && e == emphasis,
                Report::Plain(m) => m == msg@ && emphasis == 0,
                Report::Fault(m) => m == msg@ && emphasis == 0,
            },
        ensures
            final(self)@.lines == old(self)@.lines + report_lines(old(self).output, r@),
            final(self).output == old(self).output,
            final(self).statistics == old(self).statistics,
    {
        let ghost before = self@.lines;
        match self.output {
            Output::Console => {
                let stream = if fault {
                    Stream::Stderr
                } else {
                    Stream::Stdout
                };
                self.push_line(stream, String::from_str(msg), emphasis);
            },
            Output::File => {
                self.push_line(Stream::File, String::from_str(msg), 0);
            },
            Output::Html => {
                if fault {
                    let mut row = String::from_str("<tr><td>");
                    row.append(msg);
                    row.append("</td></tr>");
                    assert(row@ =~= "<tr>"@ + cell(msg@) + "</tr>"@) by {
                        reveal_strlit("<tr><td>");
                        reveal_strlit("</td></tr>");
                        reveal_strlit("<tr>");
                        reveal_strlit("<td>");
                        reveal_strlit("</td>");
                        reveal_strlit("</tr>");
                    }
                    self.push_line(Stream::File, row, 0);
                } else {
                    self.push_line(Stream::File, html_row(msg), 0);
                }
            },
        }
        assert(self@.lines =~= before + report_lines(self.output, r@));
    }

    /// Reports a match whose first `emphasis` characters a terminal shows in
    /// bold, and counts a hit.
    pub fn output_with_stats_emphasis(&mut self, msg: &str, emphasis: usize)
        ensures
            final(self)@ == emit(old(self)@, Report::Hit(msg@, emphasis)),
    {
        self.render(Ghost(Report::Hit(msg@, emphasis)), false, msg, emphasis);
        self.statistics.increase_hits();
    }

    /// Reports a match and counts a hit.
    pub fn output_with_stats(&mut self, msg: &str)
        ensures
            final(self)@ == emit(old(self)@, Report::Hit(msg@, 0)),
    {
        self.output_with_stats_emphasis(msg, 0);
    }

    /// Reports a result line without counting it.
    pub fn output(&mut self, msg: &str)
        ensures
            final(self)@ == emit(old(self)@, Report::Plain(msg@)),
    {
        self.render(Ghost(Report::Plain(msg@)), false, msg, 0);
    }

    /// Reports a content error and counts it.
    pub fn err_output(&mut self, msg: &str)
        ensures
            final(self)@ == emit(old(self)@, Report::Fault(msg@)),
    {
        self.render(Ghost(Report::Fault(msg@)), true, msg, 0);
        self.statistics.increase_errors();
    }

    /// Announces the run's parameters, in order.
    pub fn print_param_map(&mut self, params: &Vec<(String, String)>)
        ensures
            final(self).output == old(self).output,
            final(self).statistics == old(self).statistics,
            final(self)@.lines == old(self)@.lines + param_lines(old(self).output, params_view(params@)),
    {
        let ghost pv = params_view(params@);
        let ghost start = self@.lines;
        match self.output {
            Output::Html => {
                let mut rows = String::new();
                let mut k: usize = 0;
                while k < params.len()
                    invariant
                        k <= params@.len(),
                        pv == params_view(params@),
                        rows@ == param_rows(pv.take(k as int)),
                    decreases params@.len() - k,
                {
                    let row = pair_row_text(params[k].0.as_str(), params[k].1.as_str());
                    rows.append(row.as_str());
                    assert(pv.take(k + 1).drop_last() =~= pv.take(k as int));
                    k = k + 1;
                }
                assert(pv.take(k as int) =~= pv);
                let mut page = String::from_str(HTML_PAGE_OPEN);
                page.append(rows.as_str());
                page.append(HTML_RESULTS_OPEN);
                self.push_line(Stream::File, page, 0);
                assert(self@.lines =~= start + param_lines(self.output, pv));
            },
            _ => {
                let stream = if self.output == Output::Console {
                    Stream::Stdout
                } else {
                    Stream::File
                };
                let ghost mapped = pv.map_values(|p: (Seq<char>, Seq<char>)| (stream, param_text(p.0, p.1), 0usize));
                let mut k: usize = 0;
                while k < params.len()
                    invariant
                        k <= params@.len(),
                        pv == params_view(params@),
                        mapped == pv.map_values(|p: (Seq<char>, Seq<char>)| (stream, param_text(p.0, p.1), 0usize)),
                        self@.lines == start + mapped.take(k as int),
                        self.output == old(self).output,
                        self.statistics == old(self).statistics,
                    decreases params@.len() - k,
                {
                    let line = param_line(params[k].0.as_str(), params[k].1.as_str());
                    self.push_line(stream, line, 0);
                    assert(start + mapped.take(k + 1) =~= (start + mapped.take(k as int)).push(mapped[k as int]));
                    k = k + 1;
                }
                assert(mapped.take(k as int) =~= mapped);
                if self.output == Output::File {
                    self.push_line(Stream::File, String::new(), 0);
                }
                assert(self@.lines =~= start + param_lines(self.output, pv));
            },
        }
    }

    /// Reports the final counts.
    pub fn print_stats(&mut self)
        ensures
            final(self).output == old(self).output,
            final(self).statistics == old(self).statistics,
            final(self)@.lines == old(self)@.lines + stats_lines(old(self).output, old(self).statistics),
    {
        let ghost start = self@.lines;
        let hits = decimal(self.statistics.hits);
        let errors = decimal(self.statistics.errors);
        match self.output {
            Output::Html => {
                let mut page = String::from_str(HTML_STATS_OPEN);
                page.append(pair_row_text("Hits", hits.as_str()).as_str());
                page.append(HTML_STATS_MIDDLE);
                page.append(pair_row_text("Errors", errors.as_str()).as_str());
                page.append(HTML_PAGE_CLOSE);
                self.push_line(Stream::File, page, 0);
            },
            _ => {
                let stream = if self.output == Output::Console {
                    Stream::Stdout
                } else {
                    Stream::File
                };
                let mut h = String::from_str("Hits:   ");
                h.append(hits.as_str());
                let mut e = String::from_str("Errors: ");
                e.append(errors.as_str());
                self.push_line(stream, h, 0);
                self.push_line(stream, e, 0);
            },
        }
        assert(self@.lines =~= start + stats_lines(self.output, self.statistics));
    }

    /// Hands out the rendered lines, in order, and keeps none.
    pub fn take_lines(&mut self) -> (r: Vec<OutLine>)
        ensures
            r@.map_values(|l: OutLine| l@) == old(self)@.lines,
            final(self)@.lines == Seq::<(Stream, Seq<char>, usize)>::empty(),
            final(self).output == old(self).output,
            final(self).statistics == old(self).statistics,
    {
        let mut r: Vec<OutLine> = Vec::new();
        std::mem::swap(&mut r, &mut self.lines);
        assert(self@.lines =~= Seq::<(Stream, Seq<char>, usize)>::empty());
        r
    }

    /// The name of this kind of sink.
    pub fn get_name(&self) -> (r: &'static str)
        ensures
            r@ == printer_name(self.output),
    {
        match self.output {
            Output::Console => "StdPrinter",
            Output::File => "FilePrinter",
            Output::Html => "HtmlPrinter",
        }
    }
}

} // verus!
