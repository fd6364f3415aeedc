//! Searching the entry names of zip archives.
use vstd::prelude::*;
use vstd::string::*;
use crate::adapters::{path_not_found, read_failure, report_fault, report_read_failure, unexpected_content, Content, ContentView, PathInput};
use crate::finders::{rule_hit, MatchRule, Strategy};
use crate::printer::{emit, emit_all, lemma_emit_all_push, OutputPrinter, Report};
use crate::text::opt_view;

verus! {

#[verifier::external_type_specification]
#[verifier::external_body]
#[verifier::reject_recursive_types(T)]
pub struct ExCursor<T>(std::io::Cursor<T>);

#[verifier::external_type_specification]
#[verifier::external_body]
#[verifier::reject_recursive_types(R)]
pub struct ExZipArchive<R>(zip::ZipArchive<R>);

/// What `zip` makes of an archive's bytes: for each entry in the central
/// directory its name, or `None` where the entry's local header cannot be
/// found; or the `Debug` text of the error where the archive cannot be read.
pub uninterp spec fn zip_read(data: Seq<u8>) -> Result<Seq<Option<Seq<char>>>, Seq<char>>;

/// The entries of an opened archive, as `zip_read` lists them.
pub uninterp spec fn archive_entries(a: zip::ZipArchive<std::io::Cursor<Vec<u8>>>) -> Seq<Option<Seq<char>>>;

/// Relies on `zip::ZipArchive::new`, which reads the central directory from
/// the bytes, or fails with an error whose `Debug` text is returned.
#[verifier::external_body]
fn open_archive(data: Vec<u8>) -> (r: Result<zip::ZipArchive<std::io::Cursor<Vec<u8>>>, String>)
    ensures
        match r {
            Ok(a) => zip_read(data@) == Ok::<Seq<Option<Seq<char>>>, Seq<char>>(archive_entries(a)),
            Err(e) => zip_read(data@) == Err::<Seq<Option<Seq<char>>>, Seq<char>>(e@),
        },
{
    zip::ZipArchive::new(std::io::Cursor::new(data)).map_err(|e| format!("{:?}", e))
}

/// Relies on `zip::ZipArchive::len`: the number of entries in the central directory.
#[verifier::external_body]
fn archive_len(a: &zip::ZipArchive<std::io::Cursor<Vec<u8>>>) -> (r: usize)
    ensures
        r == archive_entries(*a).len(),
{
    a.len()
}

/// Relies on `zip::ZipArchive::by_index_raw`, which finds the entry's local
/// header without decompressing or decrypting it, and `zip::read::ZipFile::name`:
/// the name of entry `i`, or `None` where the local header cannot be found.
#[verifier::external_body]
fn entry_name(a: &mut zip::ZipArchive<std::io::Cursor<Vec<u8>>>, i: usize) -> (r: Option<String>)
    requires
        i < archive_entries(*old(a)).len(),
    ensures
        archive_entries(*final(a)) == archive_entries(*old(a)),
        opt_view(r) == archive_entries(*old(a))[i as int],
{
    a.by_index_raw(i).ok().map(|f| f.name().to_string())
}

/// The report of a matching entry.
pub open spec fn entry_message(p: Seq<char>, name: Seq<char>) -> Seq<char> {
    p + " :: "@ + name
}

/// The report for an entry that matched: a hit naming the path, or an error
/// where the path cannot be shown.
pub open spec fn entry_report(path: Option<Seq<char>>, name: Seq<char>) -> Report {
    match path {
        Some(p) => Report::Hit(entry_message(p, name), 0),
        None => Report::Fault(path_not_found()),
    }
}

/// Reports of the entries whose names rule `s` accepts, in order; entries
/// whose local header cannot be found are passed over.
pub open spec fn entry_hits(path: Option<Seq<char>>, entries: Seq<Option<Seq<char>>>, s: MatchRule) -> Seq<Report>
    decreases entries.len(),
{
    if entries.len() == 0 {
        Seq::empty()
    } else {
        let prev = entry_hits(path, entries.drop_last(), s);
        match entries.last() {
            Some(n) => if rule_hit(s, n) {
                prev.push(entry_report(path, n))
            } else {
                prev
            },
            None => prev,
        }
    }
}

/// Reports of archive modes for one path.
pub open spec fn zip_reports(path: Option<Seq<char>>, content: ContentView, s: MatchRule) -> Seq<Report> {
    match content {
        ContentView::Bytes(d) => match zip_read(d) {
            Err(e) => seq![Report::Fault(e)],
            Ok(entries) => entry_hits(path, entries, s),
        },
        ContentView::Failed(e) => seq![read_failure(path, e)],
        _ => seq![read_failure(path, unexpected_content())],
    }
}

fn report_entry_match(path: &Option<String>, name: &str, output: &mut OutputPrinter)
    ensures
        final(output)@ == emit(old(output)@, entry_report(opt_view(*path), name@)),
{
    match path {
        Some(p) => {
            let mut m = String::from_str(p.as_str());
            m.append(" :: ");
            m.append(name);
            output.output_with_stats(m.as_str());
        },
        None => {
            output.err_output("Path not found");
        },
    }
}

/// Searches the entry names of one archive with `strategy`.
pub fn process_zip_with_expression_generic(input: &PathInput, strategy: &Strategy, output: &mut OutputPrinter)
    ensures
        final(output)@ == emit_all(old(output)@, zip_reports(opt_view(input.path), input.content@, strategy@)),
{
    match &input.content {
        Content::Bytes(data) => {
            match open_archive(data.clone()) {
                Err(e) => {
                    report_fault(output, e.as_str());
                },
                Ok(archive) => {
                    let mut archive = archive;
                    let ghost entries = archive_entries(archive);
                    let ghost pv = opt_view(input.path);
                    let len = archive_len(&archive);
                    let ghost v0 = output@;
                    let mut i: usize = 0;
                    while i < len
                        invariant
                            i <= len,
                            len == entries.len(),
                            archive_entries(archive) == entries,
                            zip_read(data@) == Ok::<Seq<Option<Seq<char>>>, Seq<char>>(entries),
                            pv == opt_view(input.path),
                            output@ == emit_all(v0, entry_hits(pv, entries.take(i as int), strategy@)),
                        decreases len - i,
                    {
                        assert(entries.take(i + 1).drop_last() =~= entries.take(i as int));
                        match entry_name(&mut archive, i) {
                            Some(name) => {
                                if strategy.matches(name.as_str()) {
                                    report_entry_match(&input.path, name.as_str(), output);
                                    proof {
                                        lemma_emit_all_push(
                                            v0,
                                            entry_hits(pv, entries.take(i as int), strategy@),
                                            entry_report(pv, name@),
                                        );
                                    }
                                }
                            },
                            None => {},
                        }
                        i = i + 1;
                    }
                    assert(entries.take(i as int) =~= entries);
                },
            }
        },
        Content::Failed(e) => {
            report_read_failure(&input.path, e.as_str(), output);
        },
        _ => {
            report_read_failure(&input.path, "no content of the kind this mode reads", output);
        },
    }
}

/// Literal search over the entry names of one archive.
pub fn process_zip_with_expression(input: &PathInput, search_expression: &String, output: &mut OutputPrinter)
    ensures
        final(output)@ == emit_all(
            old(output)@,
            zip_reports(opt_view(input.path), input.content@, MatchRule::Literal(search_expression@)),
        ),
{
    let strategy = Strategy::Literal(search_expression.clone());
    process_zip_with_expression_generic(input, &strategy, output);
}

} // verus!
