//! HTML and XML documents.
//!
//! HTML goes through the `htmd` converter; XML is turned into an outline:
//! the root and its children as headings, deeper elements as bold labels,
//! and each text node on a line of its own.

use vstd::prelude::*;
use crate::text::{chars_of, push_chars, trim, trim_str, split_lines, views, lines_of, has_prefix, starts_with_at, slice_chars, string_from_chars, utf8_text};
use crate::utils::{InputFormat, count_words, split_whitespace_count};
use crate::xml::{XmlEvent, XmlEventModel, event_views, xml_events, read_xml_events};
use super::{DocumentConverter, ConversionResult, ConvertError, DocumentMetadata, single_chunk_result};

verus! {

/// HTML converter.
pub struct HtmlConverter;

impl HtmlConverter {
    pub fn new() -> (r: Self) {
        HtmlConverter
    }
}

impl DocumentConverter for HtmlConverter {
    open spec fn spec_format(&self) -> InputFormat {
        InputFormat::Html
    }

    fn format(&self) -> (r: InputFormat) {
        InputFormat::Html
    }
}

/// XML converter.
pub struct XmlConverter;

impl XmlConverter {
    pub fn new() -> (r: Self) {
        XmlConverter
    }
}

impl DocumentConverter for XmlConverter {
    open spec fn spec_format(&self) -> InputFormat {
        InputFormat::Xml
    }

    fn format(&self) -> (r: InputFormat) {
        InputFormat::Xml
    }
}

// ── XML outline ───────────────────────────────────────────────────────────

/// One event of the XML outline, on the Markdown so far and the element
/// depth. An opening tag at depth 0 is a `#` heading, at depth 1 a `##`
/// heading, deeper a bold `**name:** ` label; text is trimmed and, when not
/// empty, put on a line of its own; a closing tag goes up one level (never
/// below 0). Other events change nothing.
pub open spec fn xml_outline_step(st: (Seq<char>, nat), e: XmlEventModel) -> (Seq<char>, nat) {
    let md = st.0;
    let depth = st.1;
    match e {
        XmlEventModel::Start { name, .. } => (
            if depth == 0 {
                md + "# "@ + name + "\n\n"@
            } else if depth == 1 {
                md + "## "@ + name + "\n\n"@
            } else {
                md + "**"@ + name + ":** "@
            },
            depth + 1,
        ),
        XmlEventModel::Text { text } => if trim(text).len() > 0 {
            (md + trim(text) + "\n"@, depth)
        } else {
            st
        },
        XmlEventModel::End { .. } => (md, if depth == 0 { 0 } else { (depth - 1) as nat }),
        _ => st,
    }
}

/// The outline state after a sequence of events, from an empty document.
pub open spec fn xml_outline(es: Seq<XmlEventModel>) -> (Seq<char>, nat)
    decreases es.len(),
{
    if es.len() == 0 {
        (Seq::empty(), 0)
    } else {
        xml_outline_step(xml_outline(es.drop_last()), es.last())
    }
}

/// The depth never exceeds the number of events.
proof fn lemma_outline_depth(es: Seq<XmlEventModel>)
    ensures
        xml_outline(es).1 <= es.len(),
    decreases es.len(),
{
    if es.len() > 0 {
        lemma_outline_depth(es.drop_last());
    }
}

/// The Markdown outline of a sequence of XML events.
pub fn xml_events_to_markdown(events: &Vec<XmlEvent>) -> (r: String)
    ensures
        r@ == xml_outline(event_views(events@)).0,
{
    let ghost evs = event_views(events@);
    let mut md = String::new();
    let mut depth: usize = 0;
    let mut i: usize = 0;
    while i < events.len()
        invariant
            i <= events@.len(),
            evs == event_views(events@),
            (md@, depth as nat) == xml_outline(evs.take(i as int)),
        decreases events@.len() - i,
    {
        assert(evs.take(i + 1).drop_last() =~= evs.take(i as int));
        assert(evs[i as int] == events@[i as int]@);
        proof {
            lemma_outline_depth(evs.take(i as int));
        }
        match &events[i] {
            XmlEvent::Start { name, .. } => {
                if depth == 0 {
                    md.append("# ");
                    md.append(name.as_str());
                    md.append("\n\n");
                } else if depth == 1 {
                    md.append("## ");
                    md.append(name.as_str());
                    md.append("\n\n");
                } else {
                    md.append("**");
                    md.append(name.as_str());
                    md.append(":** ");
                }
                depth = depth + 1;
            },
            XmlEvent::Text { text } => {
                let t = trim_str(text.as_str());
                if t.len() > 0 {
                    push_chars(&mut md, t.as_slice());
                    md.append("\n");
                }
            },
            XmlEvent::End { .. } => {
                if depth > 0 {
                    depth = depth - 1;
                }
            },
            _ => {},
        }
        i = i + 1;
    }
    assert(evs.take(events@.len() as int) =~= evs);
    md
}

/// The Markdown outline of an XML document.
pub fn xml_to_markdown(xml: &str) -> (r: String)
    ensures
        r@ == xml_outline(xml_events(xml@)).0,
{
    let events = read_xml_events(xml);
    xml_events_to_markdown(&events)
}

/// Convert an XML file, given its bytes: the outline, with no title and the
/// words counted by `count_words`.
pub fn extract_xml_to_markdown(path: &str, data: &[u8], file_size: u64) -> (r: Result<ConversionResult, ConvertError>)
    ensures
        match r {
            Ok(res) => {
                let md = xml_outline(xml_events(vstd::utf8::decode_utf8(data@))).0;
                &&& vstd::utf8::valid_utf8(data@)
                &&& single_chunk_result(res, md, None, 1, InputFormat::Xml, path@, file_size, split_whitespace_count(md))
            },
            Err(e) => !vstd::utf8::valid_utf8(data@) && e is NotUtf8,
        },
{
    let content = match utf8_text(data) {
        Some(s) => s,
        None => return Err(ConvertError::NotUtf8),
    };
    let markdown = xml_to_markdown(content.as_str());
    let word_count = count_words(markdown.as_str());
    let metadata = DocumentMetadata {
        title: None,
        author: None,
        page_count: 1,
        word_count,
        source_format: InputFormat::Xml,
        source_path: path.to_owned(),
        file_size_bytes: file_size,
    };
    Ok(ConversionResult::from_markdown_no_recount(markdown, metadata))
}

// ── HTML ──────────────────────────────────────────────────────────────────

/// What the `htmd` converter, set to skip `script`, `style` and `noscript`
/// elements, gives for an HTML text: the Markdown, or the converter's error
/// message.
pub uninterp spec fn htmd_markdown(html: Seq<char>) -> Result<Seq<char>, Seq<char>>;

/// `htmd::HtmlToMarkdown::convert`, with a converter built to skip `script`,
/// `style` and `noscript` elements. The contract names the result: it is
/// `htmd_markdown` of the input, the Markdown or the error's message.
#[verifier::external_body]
fn htmd_convert(html: &str) -> (r: Result<String, String>)
    ensures
        match r {
            Ok(md) => htmd_markdown(html@) == Ok::<Seq<char>, Seq<char>>(md@),
            Err(m) => htmd_markdown(html@) == Err::<Seq<char>, Seq<char>>(m@),
        },
{
    let converter = htmd::HtmlToMarkdown::builder().skip_tags(vec!["script", "style", "noscript"]).build();
    converter.convert(html).map_err(|e| e.to_string())
}

/// The first line that begins with `# ` or `## `.
pub open spec fn first_heading_line(lines: Seq<Seq<char>>) -> Option<Seq<char>>
    decreases lines.len(),
{
    if lines.len() == 0 {
        None
    } else if has_prefix(lines[0], "# "@) || has_prefix(lines[0], "## "@) {
        Some(lines[0])
    } else {
        first_heading_line(lines.drop_first())
    }
}

/// `s` without its leading `#` characters.
pub open spec fn strip_hashes(s: Seq<char>) -> Seq<char>
    decreases s.len(),
{
    if s.len() > 0 && s[0] == '#' {
        strip_hashes(s.drop_first())
    } else {
        s
    }
}

/// The title of converted HTML: the first `#` or `##` heading line, without
/// its `#`s and surrounding whitespace.
pub open spec fn html_title(md: Seq<char>) -> Option<Seq<char>> {
    match first_heading_line(lines_of(md)) {
        Some(l) => Some(trim(strip_hashes(l))),
        None => None,
    }
}

/// The title of converted HTML (see `html_title`).
pub fn html_title_of(md: &str) -> (r: Option<String>)
    ensures
        match r {
            Some(t) => html_title(md@) == Some(t@),
            None => html_title(md@) is None,
        },
{
    let chars = chars_of(md);
    let lines = split_lines(chars.as_slice());
    let ghost ls = views(lines@);
    let h1 = chars_of("# ");
    let h2 = chars_of("## ");
    let mut i: usize = 0;
    assert(ls.skip(0) =~= ls);
    while i < lines.len()
        invariant
            i <= lines@.len(),
            ls == views(lines@),
            ls == lines_of(md@),
            h1@ == "# "@,
            h2@ == "## "@,
            first_heading_line(ls) == first_heading_line(ls.skip(i as int)),
        decreases lines@.len() - i,
    {
        let line = lines[i].as_slice();
        assert(ls.skip(i as int)[0] == lines@[i as int]@);
        assert(line@.skip(0) =~= line@);
        if starts_with_at(line, 0, h1.as_slice()) || starts_with_at(line, 0, h2.as_slice()) {
            let mut k: usize = 0;
            assert(line@.skip(0) =~= line@);
            while k < line.len() && line[k] == '#'
                invariant
                    k <= line@.len(),
                    strip_hashes(line@) == strip_hashes(line@.skip(k as int)),
                decreases line@.len() - k,
            {
                assert(line@.skip(k as int).drop_first() =~= line@.skip(k + 1));
                k = k + 1;
            }
            let rest = slice_chars(line, k, line.len());
            assert(rest@ =~= line@.skip(k as int));
            let t = crate::text::trim_chars(rest.as_slice());
            return Some(string_from_chars(t.as_slice()));
        }
        assert(ls.skip(i as int).drop_first() =~= ls.skip(i + 1));
        i = i + 1;
    }
    assert(ls.skip(i as int) =~= Seq::<Seq<char>>::empty());
    None
}

/// The result for converted HTML: one chunk, the title from the first
/// heading, and the words counted by `count_words`.
pub fn html_result(markdown: String, path: &str, file_size: u64) -> (r: ConversionResult)
    ensures
        single_chunk_result(r, markdown@, html_title(markdown@), 1, InputFormat::Html, path@, file_size, split_whitespace_count(markdown@)),
{
    let word_count = count_words(markdown.as_str());
    let title = html_title_of(markdown.as_str());
    let metadata = DocumentMetadata {
        title,
        author: None,
        page_count: 1,
        word_count,
        source_format: InputFormat::Html,
        source_path: path.to_owned(),
        file_size_bytes: file_size,
    };
    ConversionResult::from_markdown_no_recount(markdown, metadata)
}

/// Convert an HTML file, given its bytes.
pub fn extract_html_to_markdown(path: &str, data: &[u8], file_size: u64) -> (r: Result<ConversionResult, ConvertError>)
    ensures
        vstd::utf8::valid_utf8(data@) ==> match htmd_markdown(vstd::utf8::decode_utf8(data@)) {
            Ok(md) => r matches Ok(res) && single_chunk_result(res, md, html_title(md), 1, InputFormat::Html, path@, file_size, split_whitespace_count(md)),
            Err(m) => r matches Err(ConvertError::Html(msg)) && msg@ == m,
        },
        !vstd::utf8::valid_utf8(data@) ==> r matches Err(ConvertError::NotUtf8),
{
    let html = match utf8_text(data) {
        Some(s) => s,
        None => return Err(ConvertError::NotUtf8),
    };
    match htmd_convert(html.as_str()) {
        Ok(markdown) => Ok(html_result(markdown, path, file_size)),
        Err(m) => Err(ConvertError::Html(m)),
    }
}

} // verus!
