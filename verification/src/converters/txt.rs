//! Plain text, RTF, ODT and Markdown files.

use vstd::prelude::*;
use vstd::string::*;
use vstd::utf8::{encode_utf8, decode_utf8};
use crate::text::{
    lines_of, trim, views, split_lines, trim_chars, chars_of, push_chars, push_char,
    utf8_len_below, count_upper, count_alpha, count_upper_alpha, lemma_encode_utf8_len,
    first_with_prefix, find_line_with_prefix, strip_prefixes, strip_prefixes_chars,
    string_from_chars, utf8_text, str_eq, trim_str,
};
use crate::xml::{XmlEvent, XmlEventModel, event_views, xml_events, read_xml_events};
use crate::archive::{zip_open, zip_open_error, zip_entry_count, entry_search, find_entry_text};
use crate::text::{replace_all, replace_str};
use crate::utils::{InputFormat, detect_format, format_of_extension, lowered_extension, split_whitespace_count};
use super::{DocumentConverter, ConversionResult, ConvertError, DocumentMetadata, single_chunk_result};

verus! {

/// Plain text / Markdown converter.
pub struct TxtConverter;

impl TxtConverter {
    pub fn new() -> (r: Self) {
        TxtConverter
    }
}

impl DocumentConverter for TxtConverter {
    open spec fn spec_format(&self) -> InputFormat {
        InputFormat::Txt
    }

    fn format(&self) -> (r: InputFormat) {
        InputFormat::Txt
    }
}

/// `max(n, 1)`.
pub open spec fn at_least_one(n: nat) -> nat {
    if n == 0 { 1 } else { n }
}

/// One line of the plain-text heuristic. A non-empty line that follows an
/// empty one becomes a `##` heading when it is shorter than 60 bytes and more
/// than 60% of its letters are uppercase, or a `###` heading when it is
/// shorter than 40 bytes and ends in neither `.` nor `,`. Runs of empty lines
/// become a single empty line.
pub open spec fn txt_line_step(md: Seq<char>, prev_empty: bool, line: Seq<char>) -> (Seq<char>, bool) {
    let t = trim(line);
    if t.len() == 0 {
        (if !prev_empty { md.push('\n') } else { md }, true)
    } else if encode_utf8(t).len() < 60 && prev_empty && 5 * count_upper(t) > 3 * at_least_one(count_alpha(t)) {
        (md + "## "@ + t + "\n"@, false)
    } else if encode_utf8(t).len() < 40 && prev_empty && t.last() != '.' && t.last() != ',' {
        (md + "### "@ + t + "\n"@, false)
    } else {
        (md + line + "\n"@, false)
    }
}

/// The heuristic applied to a sequence of lines, from an empty document.
pub open spec fn txt_fold(lines: Seq<Seq<char>>) -> (Seq<char>, bool)
    decreases lines.len(),
{
    if lines.len() == 0 {
        (Seq::empty(), true)
    } else {
        let prev = txt_fold(lines.drop_last());
        txt_line_step(prev.0, prev.1, lines.last())
    }
}

/// Markdown for plain text, with heuristic heading detection.
pub open spec fn txt_markdown(text: Seq<char>) -> Seq<char> {
    txt_fold(lines_of(text)).0
}

/// Convert plain text to Markdown with heuristic heading detection.
///
/// The uppercase-ratio test (`uppercase / max(letters, 1) > 0.6`) is computed
/// exactly as `5 * uppercase > 3 * max(letters, 1)`; lines under 60 bytes
/// have fewer than 60 letters, where this agrees with a 32-bit float division.
pub fn txt_to_markdown(text: &str) -> (r: String)
    ensures
        r@ == txt_markdown(text@),
{
    let chars = chars_of(text);
    let lines = split_lines(chars.as_slice());
    let ghost ls = views(lines@);
    let mut md = String::new();
    let mut prev_empty = true;
    let mut i: usize = 0;
    while i < lines.len()
        invariant
            i <= lines@.len(),
            ls == views(lines@),
            ls == lines_of(text@),
            (md@, prev_empty) == txt_fold(ls.take(i as int)),
        decreases lines@.len() - i,
    {
        assert(ls.take(i + 1).drop_last() =~= ls.take(i as int));
        assert(ls.take(i + 1).last() == lines@[i as int]@);
        let line = &lines[i];
        let t = trim_chars(line.as_slice());
        if t.len() == 0 {
            if !prev_empty {
                push_char(&mut md, '\n');
            }
            prev_empty = true;
        } else {
            let mut heading2 = false;
            if prev_empty && utf8_len_below(t.as_slice(), 60) {
                proof {
                    lemma_encode_utf8_len(t@);
                }
                let (u, a) = count_upper_alpha(t.as_slice());
                let a1 = if a == 0 { 1 } else { a };
                heading2 = 5 * u > 3 * a1;
            }
            if heading2 {
                md.append("## ");
                push_chars(&mut md, t.as_slice());
                md.append("\n");
            } else if prev_empty && utf8_len_below(t.as_slice(), 40) && t[t.len() - 1] != '.'
                && t[t.len() - 1] != ',' {
                md.append("### ");
                push_chars(&mut md, t.as_slice());
                md.append("\n");
            } else {
                push_chars(&mut md, line.as_slice());
                md.append("\n");
            }
            prev_empty = false;
        }
        i = i + 1;
    }
    assert(ls.take(ls.len() as int) =~= ls);
    md
}

/// The text of the first line that starts with `# `, without its leading `# `s.
pub open spec fn heading_title(md: Seq<char>) -> Option<Seq<char>> {
    match first_with_prefix(lines_of(md), "# "@) {
        Some(l) => Some(strip_prefixes(l, "# "@)),
        None => None,
    }
}

/// The title of a Markdown text: its first `# ` line, without the `# `s.
pub fn heading_title_of(md: &str) -> (r: Option<String>)
    ensures
        match r {
            Some(t) => heading_title(md@) == Some(t@),
            None => heading_title(md@) is None,
        },
{
    let chars = chars_of(md);
    let lines = split_lines(chars.as_slice());
    let prefix = chars_of("# ");
    match find_line_with_prefix(&lines, prefix.as_slice()) {
        Some(i) => {
            let stripped = strip_prefixes_chars(lines[i].as_slice(), prefix.as_slice());
            Some(string_from_chars(stripped.as_slice()))
        },
        None => None,
    }
}

/// The Markdown of a plain-text or Markdown file: Markdown files are kept as
/// they are, other text goes through the heading heuristic.
pub open spec fn plain_markdown(format: InputFormat, text: Seq<char>) -> Seq<char> {
    if format == InputFormat::Markdown {
        text
    } else {
        txt_markdown(text)
    }
}

/// Whether `r` is the result for a document with the given Markdown, title,
/// page count, format, path and size, with words recounted.
pub open spec fn is_full_result(
    r: ConversionResult,
    md: Seq<char>,
    title: Option<Seq<char>>,
    page_count: nat,
    format: InputFormat,
    path: Seq<char>,
    size: u64,
) -> bool {
    single_chunk_result(r, md, title, page_count, format, path, size, split_whitespace_count(md))
}

/// Build a one-chunk result from Markdown, taking the title from its first
/// `# ` heading.
pub fn result_with_heading_title(
    markdown: String,
    format: InputFormat,
    path: &str,
    file_size: u64,
) -> (r: ConversionResult)
    ensures
        is_full_result(r, markdown@, heading_title(markdown@), 1, format, path@, file_size),
{
    let title = heading_title_of(markdown.as_str());
    let metadata = DocumentMetadata {
        title,
        author: None,
        page_count: 1,
        word_count: 0,
        source_format: format,
        source_path: path.to_owned(),
        file_size_bytes: file_size,
    };
    ConversionResult::from_markdown(markdown, metadata)
}

/// Convert a plain-text or Markdown file, given its bytes.
pub fn extract_plain_text_to_markdown(
    path: &str,
    data: &[u8],
    file_size: u64,
) -> (r: Result<ConversionResult, ConvertError>)
    ensures
        match r {
            Ok(res) => {
                let f = format_of_extension(lowered_extension(path@));
                let md = plain_markdown(f, decode_utf8(data@));
                &&& vstd::utf8::valid_utf8(data@)
                &&& is_full_result(res, md, heading_title(md), 1, f, path@, file_size)
            },
            Err(e) => !vstd::utf8::valid_utf8(data@) && e is NotUtf8,
        },
{
    let format = detect_format(path);
    let content = match utf8_text(data) {
        Some(s) => s,
        None => return Err(ConvertError::NotUtf8),
    };
    let markdown = if format == InputFormat::Markdown {
        content
    } else {
        txt_to_markdown(content.as_str())
    };
    Ok(result_with_heading_title(markdown, format, path, file_size))
}

// ── OpenDocument text ─────────────────────────────────────────────────────

/// The state of the ODT reading: the Markdown so far, whether text is being
/// read (inside `text:span` or `text:t`) and the current paragraph's text.
pub struct OdtState {
    pub md: Seq<char>,
    pub in_text: bool,
    pub cur: Seq<char>,
}

/// One XML event of `content.xml`. A paragraph (`text:p`) becomes a line, a
/// heading (`text:h`) a `##` line, when their text is not blank; text counts
/// only inside `text:span` or `text:t`. Errors are passed over.
pub open spec fn odt_step(s: OdtState, e: XmlEventModel) -> OdtState {
    match e {
        XmlEventModel::Start { name, .. } => if name == "p"@ || name == "h"@ {
            OdtState { cur: Seq::empty(), ..s }
        } else if name == "span"@ || name == "t"@ {
            OdtState { in_text: true, ..s }
        } else {
            s
        },
        XmlEventModel::Text { text } => if s.in_text {
            OdtState { cur: s.cur + text, ..s }
        } else {
            s
        },
        XmlEventModel::End { name } => if name == "p"@ {
            OdtState {
                md: if trim(s.cur).len() > 0 { s.md + trim(s.cur) + "\n"@ } else { s.md },
                cur: Seq::empty(),
                ..s
            }
        } else if name == "h"@ {
            OdtState {
                md: if trim(s.cur).len() > 0 { s.md + "## "@ + trim(s.cur) + "\n"@ } else { s.md },
                cur: Seq::empty(),
                ..s
            }
        } else if name == "span"@ || name == "t"@ {
            OdtState { in_text: false, ..s }
        } else {
            s
        },
        _ => s,
    }
}

/// The state after a sequence of events.
pub open spec fn odt_fold(es: Seq<XmlEventModel>) -> OdtState
    decreases es.len(),
{
    if es.len() == 0 {
        OdtState { md: Seq::empty(), in_text: false, cur: Seq::empty() }
    } else {
        odt_step(odt_fold(es.drop_last()), es.last())
    }
}

/// The Markdown of the events of an ODT `content.xml`.
pub fn odt_events_to_markdown(events: &Vec<XmlEvent>) -> (r: String)
    ensures
        r@ == odt_fold(event_views(events@)).md,
{
    let ghost evs = event_views(events@);
    let mut md = String::new();
    let mut in_text = false;
    let mut cur = String::new();
    let mut i: usize = 0;
    while i < events.len()
        invariant
            i <= events@.len(),
            evs == event_views(events@),
            odt_fold(evs.take(i as int)) == (OdtState { md: md@, in_text, cur: cur@ }),
        decreases events@.len() - i,
    {
        assert(evs.take(i + 1).drop_last() =~= evs.take(i as int));
        assert(evs[i as int] == events@[i as int]@);
        match &events[i] {
            XmlEvent::Start { name, .. } => {
                if str_eq(name.as_str(), "p") || str_eq(name.as_str(), "h") {
                    cur = String::new();
                } else if str_eq(name.as_str(), "span") || str_eq(name.as_str(), "t") {
                    in_text = true;
                }
            },
            XmlEvent::Text { text } => {
                if in_text {
                    cur.append(text.as_str());
                }
            },
            XmlEvent::End { name } => {
                if str_eq(name.as_str(), "p") {
                    let t = trim_str(cur.as_str());
                    if t.len() > 0 {
                        push_chars(&mut md, t.as_slice());
                        md.append("\n");
                    }
                    cur = String::new();
                } else if str_eq(name.as_str(), "h") {
                    let t = trim_str(cur.as_str());
                    if t.len() > 0 {
                        md.append("## ");
                        push_chars(&mut md, t.as_slice());
                        md.append("\n");
                    }
                    cur = String::new();
                } else if str_eq(name.as_str(), "span") || str_eq(name.as_str(), "t") {
                    in_text = false;
                }
            },
            _ => {},
        }
        i = i + 1;
    }
    assert(evs.take(events@.len() as int) =~= evs);
    md
}

/// The Markdown of an ODT `content.xml`.
pub fn odt_content_to_markdown(xml: &str) -> (r: String)
    ensures
        r@ == odt_fold(xml_events(xml@)).md,
{
    let events = read_xml_events(xml);
    odt_events_to_markdown(&events)
}

// ── ODT and RTF files ─────────────────────────────────────────────────────

/// The placeholder for an ODT file without readable content.
pub open spec fn odt_placeholder() -> Seq<char> {
    "*Could not extract ODT content*\n"@
}

/// The Markdown of an ODT file's `content.xml` (the placeholder when there
/// is none, or it is empty).
pub open spec fn odt_body_markdown(found: Option<Seq<char>>) -> Seq<char> {
    match found {
        Some(xml) => if xml.len() > 0 { odt_fold(xml_events(xml)).md } else { odt_placeholder() },
        None => odt_placeholder(),
    }
}

/// What converting an ODT file's bytes gives.
pub open spec fn odt_outcome(data: Seq<u8>) -> Result<Seq<char>, Seq<char>> {
    match zip_open_error(data) {
        Some(m) => Err(m),
        None => match entry_search(data, "content.xml"@, 0, zip_entry_count(data)) {
            Err(m) => Err(m),
            Ok(found) => Ok(odt_body_markdown(found)),
        },
    }
}

/// Basic ODT (OpenDocument Text) conversion, given the file's bytes; the
/// errors are those of the ZIP reader.
pub fn convert_odt(data: &[u8]) -> (r: Result<String, String>)
    ensures
        match r {
            Ok(md) => odt_outcome(data@) == Ok::<Seq<char>, Seq<char>>(md@),
            Err(m) => odt_outcome(data@) == Err::<Seq<char>, Seq<char>>(m@),
        },
{
    let mut archive = match zip_open(data) {
        Ok(a) => a,
        Err(m) => return Err(m),
    };
    let found = match find_entry_text(&mut archive, "content.xml") {
        Ok(f) => f,
        Err(m) => return Err(m),
    };
    match found {
        Some(xml) => if xml.as_str().unicode_len() > 0 {
            Ok(odt_content_to_markdown(xml.as_str()))
        } else {
            Ok("*Could not extract ODT content*\n".to_owned())
        },
        None => Ok("*Could not extract ODT content*\n".to_owned()),
    }
}

/// The pattern of RTF control words, escaped braces, braces and escaped
/// line breaks.
pub open spec fn rtf_pattern() -> Seq<char> {
    "\\\\[a-z]+\\d*\\s?|\\\\[{}]|[{}]|\\\\\\n"@
}

/// What `regex::Regex::new(pattern)` and then `replace_all(text, rep)` give:
/// the text with every match replaced, or the compile error's message.
pub uninterp spec fn regex_replaced(pattern: Seq<char>, text: Seq<char>, rep: Seq<char>) -> Result<Seq<char>, Seq<char>>;

/// `regex::Regex::replace_all`, with the regex compiled from `pattern`.
#[verifier::external_body]
fn regex_replace_all(pattern: &str, text: &str, rep: &str) -> (r: Result<String, String>)
    ensures
        match r {
            Ok(t) => regex_replaced(pattern@, text@, rep@) == Ok::<Seq<char>, Seq<char>>(t@),
            Err(m) => regex_replaced(pattern@, text@, rep@) == Err::<Seq<char>, Seq<char>>(m@),
        },
{
    let re = regex::Regex::new(pattern).map_err(|e| e.to_string())?;
    Ok(re.replace_all(text, rep).into_owned())
}

/// The plain text of RTF source: control words, braces and escaped line
/// breaks removed, then `\par` marks turned into line feeds.
pub open spec fn rtf_text(stripped: Seq<char>) -> Seq<char> {
    replace_all(replace_all(stripped, "\\par "@, "\n"@), "\\par"@, "\n"@)
}

/// Basic RTF to Markdown conversion (simplified), given the file's text.
pub fn convert_rtf(content: &str) -> (r: Result<String, String>)
    ensures
        match regex_replaced(rtf_pattern(), content@, Seq::empty()) {
            Ok(stripped) => r matches Ok(md) && md@ == txt_markdown(rtf_text(stripped)),
            Err(m) => r matches Err(msg) && msg@ == m,
        },
{
    proof {
        reveal_strlit("\\par ");
        reveal_strlit("\\par");
    }
    proof {
        reveal_strlit("");
    }
    assert(""@ =~= Seq::<char>::empty());
    assert("\\\\[a-z]+\\d*\\s?|\\\\[{}]|[{}]|\\\\\\n"@ == rtf_pattern());
    let stripped = match regex_replace_all("\\\\[a-z]+\\d*\\s?|\\\\[{}]|[{}]|\\\\\\n", content, "") {
        Ok(t) => t,
        Err(m) => return Err(m),
    };
    let text = replace_str(stripped.as_str(), "\\par ", "\n");
    let text = replace_str(text.as_str(), "\\par", "\n");
    Ok(txt_to_markdown(text.as_str()))
}

/// What converting a text-like file (plain text, Markdown, RTF or ODT)
/// gives, by its detected format: the Markdown with its first `# ` heading
/// as title, or the error.
pub open spec fn text_file_outcome(
    r: Result<ConversionResult, ConvertError>,
    path: Seq<char>,
    data: Seq<u8>,
    file_size: u64,
) -> bool {
    let format = format_of_extension(lowered_extension(path));
    let text = vstd::utf8::decode_utf8(data);
    if format == InputFormat::Odt {
        match odt_outcome(data) {
            Ok(md) => r matches Ok(res) && is_full_result(res, md, heading_title(md), 1, format, path, file_size),
            Err(m) => r matches Err(ConvertError::Zip(msg)) && msg@ == m,
        }
    } else if !vstd::utf8::valid_utf8(data) {
        r matches Err(ConvertError::NotUtf8)
    } else if format == InputFormat::Rtf {
        match regex_replaced(rtf_pattern(), text, Seq::empty()) {
            Ok(stripped) => r matches Ok(res) && is_full_result(
                res,
                txt_markdown(rtf_text(stripped)),
                heading_title(txt_markdown(rtf_text(stripped))),
                1,
                format,
                path,
                file_size,
            ),
            Err(m) => r matches Err(ConvertError::Rtf(msg)) && msg@ == m,
        }
    } else {
        r matches Ok(res) && is_full_result(
            res,
            plain_markdown(format, text),
            heading_title(plain_markdown(format, text)),
            1,
            format,
            path,
            file_size,
        )
    }
}

/// Convert a plain-text, Markdown, RTF or ODT file, given its bytes.
pub fn extract_txt_to_markdown(path: &str, data: &[u8], file_size: u64) -> (r: Result<ConversionResult, ConvertError>)
    ensures
        text_file_outcome(r, path@, data@, file_size),
{
    let format = detect_format(path);
    let markdown = if format == InputFormat::Odt {
        match convert_odt(data) {
            Ok(md) => md,
            Err(m) => return Err(ConvertError::Zip(m)),
        }
    } else {
        let content = match utf8_text(data) {
            Some(s) => s,
            None => return Err(ConvertError::NotUtf8),
        };
        if format == InputFormat::Rtf {
            match convert_rtf(content.as_str()) {
                Ok(md) => md,
                Err(m) => return Err(ConvertError::Rtf(m)),
            }
        } else if format == InputFormat::Markdown {
            content
        } else {
            txt_to_markdown(content.as_str())
        }
    };
    Ok(result_with_heading_title(markdown, format, path, file_size))
}

} // verus!
