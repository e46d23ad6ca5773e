//! Saving the results of a batch: file names and the combined document.

use vstd::prelude::*;
use crate::text::{joined, join_strings};
use crate::converters::{ConversionResult, SavedContent, joined_chunks};
use crate::utils::{OutputFormat, default_output_format, output_extension};
use crate::export::md_to_html::{exported_html, markdown_to_html};
use crate::export::md_to_docx::markdown_to_docx;
use crate::utils::{path_file_name, path_file_name_of, path_file_stem, path_file_stem_of};

verus! {

/// The name that identifies a source in combined output: its file name, or
/// `unknown`.
pub open spec fn source_name_spec(path: Seq<char>) -> Seq<char> {
    match path_file_name_of(path) {
        Some(n) => n,
        None => "unknown"@,
    }
}

/// The name of a source file (its final path component), or `unknown`.
pub fn source_name(path: &str) -> (r: String)
    ensures
        r@ == source_name_spec(path@),
{
    match path_file_name(path) {
        Some(n) => n,
        None => "unknown".to_owned(),
    }
}

/// One source's section of combined output: a `Source:` heading (`##` for
/// HTML output, `#` otherwise) and its Markdown.
pub open spec fn source_section(heading: Seq<char>, name: Seq<char>, markdown: Seq<char>) -> Seq<char> {
    heading + "Source: "@ + name + "\n\n"@ + markdown
}

/// The heading mark of source sections.
pub open spec fn source_heading(html: bool) -> Seq<char> {
    if html { "## "@ } else { "# "@ }
}

/// The combined Markdown of several sources, given as (path, Markdown):
/// their sections separated by horizontal rules.
pub open spec fn combined_markdown_spec(sources: Seq<(Seq<char>, Seq<char>)>, html: bool) -> Seq<char> {
    joined(
        sources.map_values(|s: (Seq<char>, Seq<char>)| source_section(source_heading(html), source_name_spec(s.0), s.1)),
        "\n\n---\n\n"@,
    )
}

/// The combined Markdown of several sources, given as (path, Markdown).
pub fn combined_markdown(sources: &Vec<(String, String)>, html: bool) -> (r: String)
    ensures
        r@ == combined_markdown_spec(sources@.map_values(|s: (String, String)| (s.0@, s.1@)), html),
{
    let ghost sv = sources@.map_values(|s: (String, String)| (s.0@, s.1@));
    let mut sections: Vec<String> = Vec::new();
    let mut i: usize = 0;
    while i < sources.len()
        invariant
            i <= sources@.len(),
            sv == sources@.map_values(|s: (String, String)| (s.0@, s.1@)),
            sections@.map_values(|s: String| s@) == sv.take(i as int).map_values(
                |s: (Seq<char>, Seq<char>)| source_section(source_heading(html), source_name_spec(s.0), s.1),
            ),
        decreases sources@.len() - i,
    {
        let mut sec = if html { "## ".to_owned() } else { "# ".to_owned() };
        sec.append("Source: ");
        let name = source_name(sources[i].0.as_str());
        sec.append(name.as_str());
        sec.append("\n\n");
        sec.append(sources[i].1.as_str());
        let ghost before = sections@.map_values(|s: String| s@);
        sections.push(sec);
        assert(sections@.map_values(|s: String| s@) =~= before.push(sec@));
        assert(sv.take(i + 1) =~= sv.take(i as int).push(sv[i as int]));
        assert(sv.take(i + 1).map_values(|s: (Seq<char>, Seq<char>)| source_section(source_heading(html), source_name_spec(s.0), s.1))
            =~= sv.take(i as int).map_values(|s: (Seq<char>, Seq<char>)| source_section(source_heading(html), source_name_spec(s.0), s.1)).push(
            source_section(source_heading(html), source_name_spec(sv[i as int].0), sv[i as int].1),
        ));
        i = i + 1;
    }
    assert(sv.take(sources@.len() as int) =~= sv);
    join_strings(&sections, "\n\n---\n\n")
}

/// The name of the file a result is saved to: the input's stem (or
/// `output`) with the output extension.
pub open spec fn output_file_name_spec(input: Seq<char>, ext: Seq<char>) -> Seq<char> {
    (match path_file_stem_of(input) {
        Some(s) => s,
        None => "output"@,
    }) + "."@ + ext
}

/// The name of the file a result is saved to.
pub fn output_file_name(input: &str, ext: &str) -> (r: String)
    ensures
        r@ == output_file_name_spec(input@, ext@),
{
    let mut name = match path_file_stem(input) {
        Some(s) => s,
        None => "output".to_owned(),
    };
    name.append(".");
    name.append(ext);
    name
}

/// The name of the combined output file: `combined_output.<ext>`.
pub fn combined_file_name(ext: &str) -> (r: String)
    ensures
        r@ == "combined_output."@ + ext@,
{
    let mut name = "combined_output.".to_owned();
    name.append(ext);
    name
}

/// The number of parallel jobs to run: at least one.
pub fn parallel_jobs(jobs: usize) -> (r: usize)
    ensures
        r == if jobs == 0 { 1 } else { jobs },
{
    if jobs == 0 {
        1
    } else {
        jobs
    }
}


/// The words of a list of results, added up.
pub open spec fn words_total(results: Seq<ConversionResult>) -> nat
    decreases results.len(),
{
    if results.len() == 0 {
        0
    } else {
        words_total(results.drop_last()) + (results.last().metadata.word_count as nat)
    }
}

proof fn lemma_words_total_prefix(results: Seq<ConversionResult>, k: int)
    requires
        0 <= k <= results.len(),
    ensures
        words_total(results.take(k)) <= words_total(results),
    decreases results.len() - k,
{
    if k < results.len() {
        lemma_words_total_prefix(results, k + 1);
        assert(results.take(k + 1).drop_last() =~= results.take(k));
    } else {
        assert(results.take(k) =~= results);
    }
}

/// The total word count of the converted files, when it fits in a `usize`.
pub fn total_word_count(results: &Vec<ConversionResult>) -> (r: Option<usize>)
    ensures
        match r {
            Some(n) => n == words_total(results@),
            None => words_total(results@) > usize::MAX,
        },
{
    let mut total: usize = 0;
    let mut i: usize = 0;
    while i < results.len()
        invariant
            i <= results@.len(),
            total == words_total(results@.take(i as int)),
        decreases results@.len() - i,
    {
        assert(results@.take(i + 1).drop_last() =~= results@.take(i as int));
        let w = results[i].metadata.word_count;
        match total.checked_add(w) {
            Some(t) => total = t,
            None => {
                proof {
                    lemma_words_total_prefix(results@, i + 1);
                }
                return None;
            },
        }
        i = i + 1;
    }
    assert(results@.take(results@.len() as int) =~= results@);
    Some(total)
}


/// The output format of a batch's results: that of the first result, the
/// default when there is none.
pub open spec fn batch_format_spec(results: Seq<(String, ConversionResult)>) -> OutputFormat {
    if results.len() > 0 {
        results[0].1.output_format
    } else {
        default_output_format()
    }
}

/// The output format of a batch's results: that of the first result (all
/// share the batch's format), the default when there is none.
pub fn batch_output_format(results: &Vec<(String, ConversionResult)>) -> (r: OutputFormat)
    ensures
        r == batch_format_spec(results@),
{
    if results.len() > 0 {
        results[0].1.output_format
    } else {
        OutputFormat::default()
    }
}

/// The sources of combined output: each result's path and full Markdown.
pub open spec fn result_sources(results: Seq<(String, ConversionResult)>) -> Seq<(Seq<char>, Seq<char>)> {
    results.map_values(|e: (String, ConversionResult)| (e.0@, joined_chunks(e.1.content@)))
}

/// The combined output file of a batch: its name, `combined_output.<ext>`
/// for the batch's format, and its content: for HTML, the exported HTML of
/// the sources under `##` headings; for DOCX, a package of the sources
/// under `#` headings titled "MDrust Combined Output"; otherwise the
/// Markdown of the sources under `#` headings. An error is the DOCX
/// writer's message.
pub fn combined_output(results: &Vec<(String, ConversionResult)>) -> (r: Result<(String, SavedContent), String>)
    ensures
        ({
            let format = batch_format_spec(results@);
            let sources = result_sources(results@);
            match r {
                Ok(out) => {
                    &&& out.0@ == "combined_output."@ + output_extension(format)
                    &&& match format {
                        OutputFormat::Html { .. } => out.1 matches SavedContent::Text(t)
                            && t@ == exported_html(combined_markdown_spec(sources, true), format),
                        OutputFormat::Docx => out.1 matches SavedContent::Bytes(b)
                            && crate::export::md_to_docx::docx_package_start(b@)
                            && crate::export::md_to_docx::docx_package_paragraphs(b@)
                                == crate::export::md_to_docx::document_form(crate::export::md_to_docx::document_paras(
                                    Some("MDrust Combined Output"@),
                                    crate::export::md_to_docx::markdown_events_of(combined_markdown_spec(sources, false)),
                                )),
                        _ => out.1 matches SavedContent::Text(t) && t@ == combined_markdown_spec(sources, false),
                    }
                },
                Err(_) => format == OutputFormat::Docx,
            }
        }),
{
    let format = batch_output_format(results);
    let name = combined_file_name(format.extension());
    let ghost sv = result_sources(results@);
    let mut sources: Vec<(String, String)> = Vec::new();
    let mut i: usize = 0;
    while i < results.len()
        invariant
            i <= results@.len(),
            sv == result_sources(results@),
            sources@.map_values(|s: (String, String)| (s.0@, s.1@)) == sv.take(i as int),
        decreases results@.len() - i,
    {
        let path = results[i].0.clone();
        let md = results[i].1.full_markdown();
        let ghost before = sources@;
        assert(path@ == results@[i as int].0@);
        assert(sv[i as int] == (path@, md@));
        sources.push((path, md));
        assert(sources@.map_values(|s: (String, String)| (s.0@, s.1@)) =~= before.map_values(
            |s: (String, String)| (s.0@, s.1@),
        ).push(sv[i as int]));
        assert(sources@.map_values(|s: (String, String)| (s.0@, s.1@)) =~= sv.take(i + 1));
        i = i + 1;
    }
    assert(sv.take(results@.len() as int) =~= sv);
    match format {
        OutputFormat::Html { .. } => {
            let md = combined_markdown(&sources, true);
            Ok((name, SavedContent::Text(markdown_to_html(md.as_str(), &format))))
        },
        OutputFormat::Docx => {
            let md = combined_markdown(&sources, false);
            match markdown_to_docx(md.as_str(), Some("MDrust Combined Output")) {
                Ok(b) => Ok((name, SavedContent::Bytes(b))),
                Err(m) => Err(m),
            }
        },
        _ => Ok((name, SavedContent::Text(combined_markdown(&sources, false)))),
    }
}

} // verus!
