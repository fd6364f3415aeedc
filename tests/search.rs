use std::io::Write;

use file_search::adapters::{Content, PathInput};
use file_search::dispatch::{
    print_cmd_options, process_all_modes, select_output, Cli, Mode, SearchError,
};
use file_search::finders::{find_regex, find_simple, find_simple_pos, CompiledRegex, Strategy};
use file_search::printer::{OutputPrinter, Output, Statistics, Stream};
use file_search::text::{bracket_list, decimal, html_row, pad_right, split_lines, trim_text};

fn request(mode: Mode, expr: Option<&str>) -> Cli {
    Cli {
        glob_pattern: "*.txt".to_string(),
        search_expression: expr.map(|e| e.to_string()),
        mode,
        output: None,
        file: None,
    }
}

fn file(path: &str, content: &[u8]) -> PathInput {
    PathInput { path: Some(path.to_string()), content: Content::Bytes(content.to_vec()) }
}

fn name_only(path: &str) -> PathInput {
    PathInput { path: Some(path.to_string()), content: Content::NotRead }
}

fn texts(p: &OutputPrinter) -> Vec<(Stream, String)> {
    p.lines.iter().map(|l| (l.stream, l.text.clone())).collect()
}

fn zip_bytes(names: &[&str]) -> Vec<u8> {
    let mut w = zip::ZipWriter::new(std::io::Cursor::new(Vec::new()));
    let options = zip::write::FileOptions::default().compression_method(zip::CompressionMethod::Stored);
    for n in names {
        w.start_file(*n, options).unwrap();
        w.write_all(b"data").unwrap();
    }
    w.finish().unwrap().into_inner()
}

#[test]
fn line_search_over_two_files_reports_one_match() {
    let args = request(Mode::LineSearch, Some("foo"));
    let inputs = vec![file("a.txt", b"first\n  a foo line  \nlast\n"), file("b.txt", b"nothing here\n")];
    let mut p = OutputPrinter::new(Output::Console);
    assert_eq!(process_all_modes(&args, &inputs, &mut p), Ok(()));
    p.print_stats();
    assert_eq!(
        texts(&p),
        vec![
            (Stream::Stdout, "a.txt :: 1 :: a foo line".to_string()),
            (Stream::Stdout, "Hits:   1".to_string()),
            (Stream::Stdout, "Errors: 0".to_string()),
        ]
    );
    assert_eq!(p.lines[0].emphasis, 5);
    assert_eq!(p.statistics, Statistics { hits: 1, errors: 0 });
}

#[test]
fn missing_archive_gives_one_error() {
    let args = request(Mode::Zip, Some("x"));
    let inputs = vec![PathInput {
        path: Some("missing.zip".to_string()),
        content: Content::Failed("No such file or directory (os error 2)".to_string()),
    }];
    let mut p = OutputPrinter::new(Output::Console);
    assert_eq!(process_all_modes(&args, &inputs, &mut p), Ok(()));
    assert_eq!(
        texts(&p),
        vec![(
            Stream::Stderr,
            "Could not process path \"missing.zip\" due to No such file or directory (os error 2)".to_string()
        )]
    );
    assert_eq!(p.statistics, Statistics { hits: 0, errors: 1 });
}

#[test]
fn missing_expression_stops_before_any_path() {
    let args = request(Mode::LineSearch, None);
    let inputs = vec![file("a.txt", b"foo\n")];
    let mut p = OutputPrinter::new(Output::Console);
    let r = process_all_modes(&args, &inputs, &mut p);
    assert_eq!(r, Err(SearchError::MissingSearchExpression));
    assert_eq!(r.unwrap_err().exit_code(), 1);
    assert!(p.lines.is_empty());
    assert_eq!(p.statistics, Statistics { hits: 0, errors: 0 });
}

#[test]
fn file_name_mode_reports_exactly_matching_paths() {
    let args = request(Mode::FileName, Some("foo"));
    let inputs = vec![name_only("dir/foo.txt"), name_only("dir/bar.txt"), name_only("foo")];
    let mut p = OutputPrinter::new(Output::Console);
    assert_eq!(process_all_modes(&args, &inputs, &mut p), Ok(()));
    assert_eq!(
        texts(&p),
        vec![(Stream::Stdout, "dir/foo.txt".to_string()), (Stream::Stdout, "foo".to_string())]
    );
    assert_eq!(p.statistics.hits, 2);
}

#[test]
fn file_name_mode_without_expression_lists_every_path() {
    let args = request(Mode::FileName, None);
    let inputs = vec![name_only("a"), PathInput { path: None, content: Content::NotRead }];
    let mut p = OutputPrinter::new(Output::Console);
    assert_eq!(process_all_modes(&args, &inputs, &mut p), Ok(()));
    assert_eq!(
        texts(&p),
        vec![(Stream::Stdout, "a".to_string()), (Stream::Stderr, "Nothing to print".to_string())]
    );
    assert_eq!(p.statistics, Statistics { hits: 1, errors: 1 });
}

#[test]
fn line_numbers_follow_every_line() {
    let args = request(Mode::LineSearch, Some("x"));
    let inputs = vec![file("f", b"x1\r\n\xff\xfex\nno\nx4")];
    let mut p = OutputPrinter::new(Output::File);
    assert_eq!(process_all_modes(&args, &inputs, &mut p), Ok(()));
    assert_eq!(
        texts(&p),
        vec![(Stream::File, "f :: 0 :: x1".to_string()), (Stream::File, "f :: 3 :: x4".to_string())]
    );
    assert_eq!(p.statistics.hits, 2);
}

#[test]
fn regex_line_search_and_invalid_regex() {
    let args = request(Mode::LineRegexSearch, Some("^fo+$"));
    let inputs = vec![file("f", b"foo\nfood\nfooo\n")];
    let mut p = OutputPrinter::new(Output::Console);
    assert_eq!(process_all_modes(&args, &inputs, &mut p), Ok(()));
    assert_eq!(p.statistics.hits, 2);
    let bad = request(Mode::ZipRegex, Some("("));
    let mut q = OutputPrinter::new(Output::Console);
    assert_eq!(process_all_modes(&bad, &inputs, &mut q), Err(SearchError::InvalidRegex));
    assert!(q.lines.is_empty());
}

#[test]
fn corrupt_archive_counts_one_error() {
    let args = request(Mode::Zip, Some("a"));
    let inputs = vec![file("bad.zip", b"this is not an archive")];
    let mut p = OutputPrinter::new(Output::Console);
    assert_eq!(process_all_modes(&args, &inputs, &mut p), Ok(()));
    assert_eq!(p.lines.len(), 1);
    assert_eq!(p.lines[0].stream, Stream::Stderr);
    assert!(p.lines[0].text.contains("InvalidArchive"));
    assert_eq!(p.statistics, Statistics { hits: 0, errors: 1 });
}

#[test]
fn archive_entries_matching_are_reported() {
    let data = zip_bytes(&["alpha.txt", "beta.csv", "gamma.txt"]);
    let args = request(Mode::Zip, Some(".txt"));
    let inputs = vec![file("a.zip", &data)];
    let mut p = OutputPrinter::new(Output::Console);
    assert_eq!(process_all_modes(&args, &inputs, &mut p), Ok(()));
    assert_eq!(
        texts(&p),
        vec![
            (Stream::Stdout, "a.zip :: alpha.txt".to_string()),
            (Stream::Stdout, "a.zip :: gamma.txt".to_string())
        ]
    );
    let regex = request(Mode::ZipRegex, Some("^b.*v$"));
    let mut q = OutputPrinter::new(Output::Console);
    assert_eq!(process_all_modes(&regex, &inputs, &mut q), Ok(()));
    assert_eq!(texts(&q), vec![(Stream::Stdout, "a.zip :: beta.csv".to_string())]);
}

fn selected(path: Option<&str>, values: &[&str]) -> PathInput {
    PathInput {
        path: path.map(|p| p.to_string()),
        content: Content::Selection(values.iter().map(|v| v.to_string()).collect()),
    }
}

#[test]
fn json_path_selection_is_one_uncounted_line() {
    let args = request(Mode::JsonPath, Some("$.b.name"));
    let inputs = vec![selected(Some("d.json"), &["String(\"x\")", "Number(2)"])];
    let mut p = OutputPrinter::new(Output::Console);
    assert_eq!(process_all_modes(&args, &inputs, &mut p), Ok(()));
    assert_eq!(texts(&p), vec![(Stream::Stdout, "d.json :: [String(\"x\"), Number(2)]".to_string())]);
    assert_eq!(p.statistics, Statistics { hits: 0, errors: 0 });
}

#[test]
fn empty_json_selection_reports_nothing_whatever_the_path() {
    let args = request(Mode::JsonPath, Some("$.zzz"));
    let inputs = vec![selected(Some("d.json"), &[]), selected(None, &[])];
    let mut q = OutputPrinter::new(Output::Console);
    assert_eq!(process_all_modes(&args, &inputs, &mut q), Ok(()));
    assert!(q.lines.is_empty());
    assert_eq!(q.statistics, Statistics { hits: 0, errors: 0 });
}

#[test]
fn json_selection_matches_the_query_engine() {
    let doc = r#"{"a": 1, "b": {"name": "x", "n": 2}}"#;
    let finder = jsonpath_rust::JsonPathFinder::from_str(doc, "$.b.name").unwrap();
    let values: Vec<String> = finder.find_slice().iter().map(|v| format!("{:?}", v)).collect();
    let inputs = vec![PathInput { path: Some("d.json".to_string()), content: Content::Selection(values) }];
    let mut p = OutputPrinter::new(Output::File);
    assert_eq!(process_all_modes(&request(Mode::JsonPath, Some("$.b.name")), &inputs, &mut p), Ok(()));
    assert_eq!(texts(&p), vec![(Stream::File, "d.json :: [String(\"x\")]".to_string())]);
}

#[test]
fn failed_json_is_a_content_error() {
    let args = request(Mode::JsonPath, Some("$.a"));
    let inputs = vec![
        PathInput { path: Some("d.json".to_string()), content: Content::Failed("expected value".to_string()) },
        file("e.json", b"{}"),
    ];
    let mut p = OutputPrinter::new(Output::Console);
    assert_eq!(process_all_modes(&args, &inputs, &mut p), Ok(()));
    assert_eq!(p.statistics, Statistics { hits: 0, errors: 2 });
    assert_eq!(p.lines[0].text, "Error occurred: expected value");
    assert_eq!(p.lines[1].text, "Error occurred: no content of the kind this mode reads");
}

#[test]
fn failed_pdf_is_a_content_error() {
    let args = request(Mode::PdfSearch, Some("x"));
    let inputs = vec![PathInput { path: Some("doc.pdf".to_string()), content: Content::Failed("Parse".to_string()) }];
    let mut p = OutputPrinter::new(Output::Console);
    assert_eq!(process_all_modes(&args, &inputs, &mut p), Ok(()));
    assert_eq!(p.statistics, Statistics { hits: 0, errors: 1 });
    assert_eq!(p.lines[0].text, "Could not extract text from 'doc.pdf': Parse");
}

#[test]
fn pdf_text_without_match_reports_nothing_whatever_the_path() {
    let args = request(Mode::PdfSearch, Some("absent"));
    let inputs = vec![
        PathInput { path: Some("a.pdf".to_string()), content: Content::Text("some text".to_string()) },
        PathInput { path: None, content: Content::Text("more text".to_string()) },
    ];
    let mut p = OutputPrinter::new(Output::Console);
    assert_eq!(process_all_modes(&args, &inputs, &mut p), Ok(()));
    assert!(p.lines.is_empty());
    assert_eq!(p.statistics, Statistics { hits: 0, errors: 0 });
}

#[test]
fn pdf_match_context_ends_at_grapheme_boundary() {
    let args = request(Mode::PdfSearch, Some("e"));
    let inputs = vec![PathInput { path: Some("g.pdf".to_string()), content: Content::Text("xe\u{301}y".to_string()) }];
    let mut p = OutputPrinter::new(Output::Console);
    assert_eq!(process_all_modes(&args, &inputs, &mut p), Ok(()));
    assert_eq!(texts(&p), vec![(Stream::Stdout, "g.pdf :: 1 :: @@xe\u{301}@@".to_string())]);
}

#[test]
fn same_request_twice_gives_same_output() {
    let data = zip_bytes(&["one", "two"]);
    let args = request(Mode::Zip, Some("o"));
    let inputs = vec![file("z.zip", &data), file("bad.zip", b"xx")];
    let mut p = OutputPrinter::new(Output::Html);
    let mut q = OutputPrinter::new(Output::Html);
    assert_eq!(process_all_modes(&args, &inputs, &mut p), Ok(()));
    assert_eq!(process_all_modes(&args, &inputs, &mut q), Ok(()));
    assert_eq!(texts(&p), texts(&q));
    assert_eq!(p.statistics, q.statistics);
}

#[test]
fn html_sink_splits_messages_into_cells() {
    assert_eq!(html_row("a :: 1 :: b"), "<tr><td>a </td><td> 1 </td><td> b</td></tr>");
    assert_eq!(html_row("a:::b"), "<tr><td>a</td><td>:b</td></tr>");
    assert_eq!(html_row(""), "<tr><td></td></tr>");
    let mut p = OutputPrinter::new(Output::Html);
    p.output_with_stats("x :: y");
    p.err_output("bad :: thing");
    assert_eq!(
        texts(&p),
        vec![
            (Stream::File, "<tr><td>x </td><td> y</td></tr>".to_string()),
            (Stream::File, "<tr><td>bad :: thing</td></tr>".to_string())
        ]
    );
    p.print_stats();
    let last = &p.lines[2].text;
    assert!(last.contains("<tr><td>Hits</td><td>1</td></tr>"));
    assert!(last.contains("<tr><td>Errors</td><td>1</td></tr>"));
    assert!(last.ends_with("</html>\n"));
}

#[test]
fn file_sink_writes_every_event_to_the_file() {
    let mut p = OutputPrinter::new(Output::File);
    p.output("plain");
    p.output_with_stats("hit");
    p.err_output("err");
    p.print_stats();
    assert_eq!(
        texts(&p),
        vec![
            (Stream::File, "plain".to_string()),
            (Stream::File, "hit".to_string()),
            (Stream::File, "err".to_string()),
            (Stream::File, "Hits:   1".to_string()),
            (Stream::File, "Errors: 1".to_string())
        ]
    );
    assert_eq!(p.get_name(), "FilePrinter");
}

#[test]
fn parameter_summary_lists_given_options() {
    let mut args = request(Mode::LineSearch, Some("tb_"));
    args.file = Some("out.txt".to_string());
    let mut p = OutputPrinter::new(Output::Console);
    print_cmd_options(&args, &mut p);
    assert_eq!(
        texts(&p),
        vec![
            (Stream::Stdout, "Mode     -> LineSearch".to_string()),
            (Stream::Stdout, "Glob     -> \"*.txt\"".to_string()),
            (Stream::Stdout, "Search   -> \"tb_\"".to_string()),
            (Stream::Stdout, "File     -> \"out.txt\"".to_string())
        ]
    );
    let mut f = OutputPrinter::new(Output::File);
    print_cmd_options(&request(Mode::FileName, None), &mut f);
    assert_eq!(f.lines.len(), 3);
    assert_eq!(f.lines[2].text, "");
    let mut h = OutputPrinter::new(Output::Html);
    print_cmd_options(&request(Mode::Zip, Some("q")), &mut h);
    assert_eq!(h.lines.len(), 1);
    assert!(h.lines[0].text.contains("<tr><td>Mode</td><td>Zip</td></tr><tr><td>Glob</td><td>\"*.txt\"</td></tr>"));
}

#[test]
fn output_falls_back_to_console_without_file() {
    let mut args = request(Mode::Zip, Some("q"));
    args.output = Some(Output::Html);
    assert_eq!(select_output(&args), Output::Console);
    args.file = Some("r.html".to_string());
    assert_eq!(select_output(&args), Output::Html);
    args.output = None;
    assert_eq!(select_output(&args), Output::Console);
}

#[test]
fn statistics_count_hits_and_errors_separately() {
    let mut s = Statistics::new();
    s.increase_errors();
    s.increase_errors();
    s.increase_hits();
    assert_eq!(s, Statistics { hits: 1, errors: 2 });
    let mut full = Statistics { hits: u64::MAX, errors: 0 };
    full.increase_hits();
    assert_eq!(full.hits, u64::MAX);
}

#[test]
fn literal_search_is_byte_wise() {
    assert!(find_simple("héllo wörld", &"wö".to_string()));
    assert!(!find_simple("hello", &"Hello".to_string()));
    assert_eq!(find_simple_pos("héllo wörld", &"w".to_string()), Some(7));
    assert_eq!(find_simple_pos("abc", &"".to_string()), Some(0));
    assert_eq!(find_simple_pos("abab", &"ba".to_string()), Some(1));
    assert_eq!(find_simple_pos("ab", &"abc".to_string()), None);
}

#[test]
fn regex_strategy_matches_through_compiled_expression() {
    let re = CompiledRegex::new(r"\d{3}").unwrap();
    assert!(find_regex("abc123", &re));
    assert!(!find_regex("abc12", &re));
    assert!(CompiledRegex::new("(unclosed").is_none());
    let s = Strategy::Literal("12".to_string());
    assert!(s.matches("x12y"));
}

#[test]
fn text_helpers() {
    assert_eq!(trim_text("\u{3000} a b\t\u{85}"), "a b");
    assert_eq!(trim_text(" \n "), "");
    assert_eq!(trim_text("x\u{200b}"), "x\u{200b}");
    assert_eq!(decimal(0), "0");
    assert_eq!(decimal(1907), "1907");
    assert_eq!(decimal(u64::MAX), "18446744073709551615");
    assert_eq!(pad_right("Mode", 8), "Mode    ");
    assert_eq!(pad_right("LongerKey", 8), "LongerKey");
    assert_eq!(bracket_list(&vec!["a".to_string(), "b".to_string()]), "[a, b]");
    assert_eq!(
        split_lines(b"a\r\nb\n\nc\r"),
        vec![Some("a".to_string()), Some("b".to_string()), Some("".to_string()), Some("c\r".to_string())]
    );
    assert_eq!(split_lines(b""), Vec::<Option<String>>::new());
    assert_eq!(split_lines(b"\xc3\n"), vec![None]);
}

#[test]
fn unreadable_file_in_line_search_is_reported_and_skipped() {
    let args = request(Mode::LineSearch, Some("a"));
    let inputs = vec![
        PathInput { path: Some("gone.txt".to_string()), content: Content::Failed("denied".to_string()) },
        file("ok.txt", b"a\n"),
    ];
    let mut p = OutputPrinter::new(Output::Console);
    assert_eq!(process_all_modes(&args, &inputs, &mut p), Ok(()));
    assert_eq!(
        texts(&p),
        vec![
            (Stream::Stderr, "Could not process path \"gone.txt\" due to denied".to_string()),
            (Stream::Stdout, "ok.txt :: 0 :: a".to_string())
        ]
    );
    assert_eq!(p.statistics, Statistics { hits: 1, errors: 1 });
}

fn pdf_with_text(text: &str) -> Vec<u8> {
    let stream = format!("BT /F1 12 Tf 72 712 Td ({}) Tj ET", text);
    let objects = vec![
        "<< /Type /Catalog /Pages 2 0 R >>".to_string(),
        "<< /Type /Pages /Kids [3 0 R] /Count 1 >>".to_string(),
        "<< /Type /Page /Parent 2 0 R /MediaBox [0 0 612 792] /Contents 4 0 R /Resources << /Font << /F1 5 0 R >> >> >>"
            .to_string(),
        format!("<< /Length {} >>\nstream\n{}\nendstream", stream.len(), stream),
        "<< /Type /Font /Subtype /Type1 /BaseFont /Helvetica >>".to_string(),
    ];
    let mut out = b"%PDF-1.4\n".to_vec();
    let mut offsets = Vec::new();
    for (i, o) in objects.iter().enumerate() {
        offsets.push(out.len());
        out.extend_from_slice(format!("{} 0 obj\n{}\nendobj\n", i + 1, o).as_bytes());
    }
    let xref = out.len();
    out.extend_from_slice(format!("xref\n0 {}\n0000000000 65535 f \n", objects.len() + 1).as_bytes());
    for off in offsets {
        out.extend_from_slice(format!("{:010} 00000 n \n", off).as_bytes());
    }
    out.extend_from_slice(
        format!("trailer\n<< /Size {} /Root 1 0 R >>\nstartxref\n{}\n%%EOF\n", objects.len() + 1, xref).as_bytes(),
    );
    out
}

#[test]
fn pdf_match_reports_offset_and_context() {
    let data = pdf_with_text("Hello foo world");
    let text = pdf_extract::extract_text_from_mem(&data).unwrap();
    let args = request(Mode::PdfSearch, Some("foo"));
    let inputs = vec![PathInput { path: Some("doc.pdf".to_string()), content: Content::Text(text) }];
    let mut p = OutputPrinter::new(Output::Console);
    assert_eq!(process_all_modes(&args, &inputs, &mut p), Ok(()));
    assert_eq!(p.statistics, Statistics { hits: 1, errors: 0 });
    let line = &p.lines[0].text;
    let text = line.strip_prefix("doc.pdf :: ").unwrap();
    let (offset, context) = text.split_once(" :: ").unwrap();
    let offset: usize = offset.parse().unwrap();
    let context = context.strip_prefix("@@").unwrap().strip_suffix("@@").unwrap();
    assert!(context.ends_with("Hello foo"));
    assert_eq!(context.len(), offset + 3);

    let none = request(Mode::PdfSearch, Some("absent"));
    let mut q = OutputPrinter::new(Output::Console);
    assert_eq!(process_all_modes(&none, &inputs, &mut q), Ok(()));
    assert!(q.lines.is_empty());
}
