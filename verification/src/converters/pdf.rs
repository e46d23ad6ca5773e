//! PDF files: text extracted from the PDF becomes Markdown.

use vstd::prelude::*;
use vstd::string::*;
use vstd::utf8::encode_utf8;
use crate::text::{
    lines_of, trim, views, split_lines, trim_chars, trim_bounds, chars_of, push_chars, push_char,
    utf8_len_below, is_uppercase_char, char_is_uppercase, string_from_chars, lens_sum,
    lemma_lines_len, lemma_lens_sum_take, lemma_trim_len, lemma_encode_utf8_len,
};
use crate::utils::{InputFormat, count_words, split_whitespace_count, lemma_word_count_bound};
use super::{DocumentConverter, ConversionResult, ConvertError, DocumentMetadata, default_output_format_is};

verus! {

/// PDF converter.
pub struct PdfConverter;

impl PdfConverter {
    pub fn new() -> (r: Self) {
        PdfConverter
    }
}

impl DocumentConverter for PdfConverter {
    open spec fn spec_format(&self) -> InputFormat {
        InputFormat::Pdf
    }

    fn format(&self) -> (r: InputFormat) {
        InputFormat::Pdf
    }
}

/// The view of an optional string.
pub open spec fn opt_view(o: Option<String>) -> Option<Seq<char>> {
    match o {
        Some(s) => Some(s@),
        None => None,
    }
}

/// State of the PDF text scan: Markdown so far, title, word count, and
/// whether the previous line was empty.
pub type PdfScan = (Seq<char>, Option<Seq<char>>, nat, bool);

/// One line of extracted PDF text. Empty lines collapse to one; a line that
/// follows an empty line, is shorter than 80 bytes, starts with an uppercase
/// letter and does not end in `.`, `,` or `;` becomes a `##` heading, and the
/// first such heading is the title. Words are counted on the trimmed lines.
pub open spec fn pdf_line_step(st: PdfScan, line: Seq<char>) -> PdfScan {
    let t = trim(line);
    if t.len() == 0 {
        (if !st.3 { st.0.push('\n') } else { st.0 }, st.1, st.2, true)
    } else {
        let wc = st.2 + split_whitespace_count(t);
        let header = encode_utf8(t).len() < 80 && t.last() != '.' && t.last() != ','
            && t.last() != ';' && is_uppercase_char(t[0]) && st.3;
        if header {
            (st.0 + "## "@ + t + "\n"@, if st.1 is None { Some(t) } else { st.1 }, wc, false)
        } else {
            (st.0 + t + "\n"@, st.1, wc, false)
        }
    }
}

/// The scan over a sequence of lines.
pub open spec fn pdf_fold(lines: Seq<Seq<char>>) -> PdfScan
    decreases lines.len(),
{
    if lines.len() == 0 {
        (Seq::empty(), None, 0, true)
    } else {
        pdf_line_step(pdf_fold(lines.drop_last()), lines.last())
    }
}

proof fn lemma_pdf_fold_words(lines: Seq<Seq<char>>)
    ensures
        pdf_fold(lines).2 <= lens_sum(lines),
    decreases lines.len(),
{
    if lines.len() > 0 {
        lemma_pdf_fold_words(lines.drop_last());
        lemma_word_count_bound(trim(lines.last()));
        lemma_trim_len(lines.last());
    }
}

/// Markdown, title and word count of extracted PDF text, in one pass.
pub fn text_to_markdown_with_meta(text: &str) -> (r: (String, Option<String>, usize))
    ensures
        r.0@ == pdf_fold(lines_of(text@)).0,
        opt_view(r.1) == pdf_fold(lines_of(text@)).1,
        r.2 == pdf_fold(lines_of(text@)).2,
{
    let nbytes = text.as_bytes().len();
    let chars = chars_of(text);
    let lines = split_lines(chars.as_slice());
    let ghost ls = views(lines@);
    proof {
        lemma_lines_len(text@);
        lemma_encode_utf8_len(text@);
    }
    let mut md = String::new();
    let mut title: Option<String> = None;
    let mut word_count: usize = 0;
    let mut prev_was_empty = true;
    let mut i: usize = 0;
    while i < lines.len()
        invariant
            i <= lines@.len(),
            ls == views(lines@),
            ls == lines_of(text@),
            lens_sum(ls) <= nbytes,
            (md@, opt_view(title), word_count as nat, prev_was_empty) == pdf_fold(ls.take(i as int)),
        decreases lines@.len() - i,
    {
        assert(ls.take(i + 1).drop_last() =~= ls.take(i as int));
        assert(ls.take(i + 1).last() == lines@[i as int]@);
        proof {
            lemma_pdf_fold_words(ls.take(i + 1));
            lemma_lens_sum_take(ls, i + 1);
        }
        let t = trim_chars(lines[i].as_slice());
        if t.len() == 0 {
            if !prev_was_empty {
                push_char(&mut md, '\n');
            }
            prev_was_empty = true;
        } else {
            let ts = string_from_chars(t.as_slice());
            let w = count_words(ts.as_str());
            word_count = word_count + w;
            let last = t[t.len() - 1];
            let is_header = utf8_len_below(t.as_slice(), 80) && last != '.' && last != ','
                && last != ';' && char_is_uppercase(t[0]) && prev_was_empty;
            if is_header {
                md.append("## ");
                push_chars(&mut md, t.as_slice());
                md.append("\n");
                if title.is_none() {
                    title = Some(ts);
                }
            } else {
                push_chars(&mut md, t.as_slice());
                md.append("\n");
            }
            prev_was_empty = false;
        }
        i = i + 1;
    }
    assert(ls.take(ls.len() as int) =~= ls);
    (md, title, word_count)
}

/// Whether the text is empty once trimmed.
fn is_blank(s: &str) -> (r: bool)
    ensures
        r == (trim(s@).len() == 0),
{
    let cs = chars_of(s);
    let (a, b) = trim_bounds(cs.as_slice());
    a == b
}

/// The error for a PDF whose text could not be read at all.
pub open spec fn unreadable_pdf_message(path: Seq<char>) -> Seq<char> {
    "Failed to extract text from PDF: "@ + path
        + ". The file may be encrypted, corrupted, or contain only images. Try: 1) Remove PDF password, 2) Use OCR edition for scanned documents"@
}

/// The error for a PDF whose text is empty.
pub open spec fn empty_pdf_message(path: Seq<char>) -> Seq<char> {
    "PDF contains no extractable text: "@ + path
        + ". This typically means the PDF is a scanned image. Use OCR (Tesseract) to recognize text from image-based PDFs."@
}

/// The text a PDF conversion works on: the first extractor's text when it is
/// not blank, else the fallback extractor's text when the document loaded.
pub open spec fn pdf_text_choice(extracted: Option<Seq<char>>, fallback: Option<Seq<char>>) -> Option<Seq<char>> {
    match extracted {
        Some(t) if trim(t).len() != 0 => Some(t),
        _ => fallback,
    }
}

/// What converting a PDF gives, given the primary extractor's text
/// (`extracted`) and, when the document loads page by page, its page count
/// and the text of its pages (`document`).
pub open spec fn pdf_outcome(
    r: Result<ConversionResult, ConvertError>,
    path: Seq<char>,
    file_size: u64,
    extracted: Option<Seq<char>>,
    document: Option<(nat, Seq<char>)>,
) -> bool {
    let fallback = match document { Some(d) => Some(d.1), None => None };
    let page_count: nat = match document { Some(d) => d.0, None => 1 };
    match r {
        Ok(res) => {
            let text = pdf_text_choice(extracted, fallback).unwrap();
            let scan = pdf_fold(lines_of(text));
            &&& pdf_text_choice(extracted, fallback) is Some
            &&& trim(text).len() != 0
            &&& res.content@.len() == 1
            &&& res.content@[0].page_number == 1
            &&& res.content@[0].data@ == scan.0
            &&& res.content@[0].label@ == "Full document"@
            &&& opt_view(res.metadata.title) == scan.1
            &&& res.metadata.author is None
            &&& res.metadata.page_count == page_count
            &&& res.metadata.word_count == scan.2
            &&& res.metadata.source_format == InputFormat::Pdf
            &&& res.metadata.source_path@ == path
            &&& res.metadata.file_size_bytes == file_size
            &&& default_output_format_is(res.output_format)
        },
        Err(ConvertError::Pdf(msg)) => match pdf_text_choice(extracted, fallback) {
            None => msg@ == unreadable_pdf_message(path),
            Some(text) => trim(text).len() == 0 && msg@ == empty_pdf_message(path),
        },
        Err(_) => false,
    }
}

/// The view of what the page-by-page reader gave.
pub open spec fn document_view(d: Option<(usize, String)>) -> Option<(nat, Seq<char>)> {
    match d {
        Some(x) => Some((x.0 as nat, x.1@)),
        None => None,
    }
}

/// Convert a PDF, given what the two text extractors produced.
///
/// `extracted` is the text of the primary extractor (absent when it failed);
/// `document` is, when the document could be loaded page by page, its page
/// count and the text of its pages.
pub fn extract_pdf_to_markdown(
    path: &str,
    file_size: u64,
    extracted: Option<String>,
    document: Option<(usize, String)>,
) -> (r: Result<ConversionResult, ConvertError>)
    ensures
        pdf_outcome(r, path@, file_size, opt_view(extracted), document_view(document)),
{
    let page_count = match &document {
        Some(d) => d.0,
        None => 1,
    };
    let text = match extracted {
        Some(t) if !is_blank(t.as_str()) => t,
        _ => match document {
            Some(d) => d.1,
            None => {
                let mut msg = String::from_str("Failed to extract text from PDF: ");
                msg.append(path);
                msg.append(". The file may be encrypted, corrupted, or contain only images. Try: 1) Remove PDF password, 2) Use OCR edition for scanned documents");
                return Err(ConvertError::Pdf(msg));
            },
        },
    };
    if is_blank(text.as_str()) {
        let mut msg = String::from_str("PDF contains no extractable text: ");
        msg.append(path);
        msg.append(". This typically means the PDF is a scanned image. Use OCR (Tesseract) to recognize text from image-based PDFs.");
        return Err(ConvertError::Pdf(msg));
    }
    let (markdown, title, word_count) = text_to_markdown_with_meta(text.as_str());
    let metadata = DocumentMetadata {
        title,
        author: None,
        page_count,
        word_count,
        source_format: InputFormat::Pdf,
        source_path: path.to_owned(),
        file_size_bytes: file_size,
    };
    Ok(ConversionResult::from_markdown_no_recount(markdown, metadata))
}


// ── Page-by-page reading ──────────────────────────────────────────────────

/// The views of the page texts that the page-by-page reader gave, in page
/// order: a text, or nothing where the page's text could not be read.
pub open spec fn page_text_views(pages: Seq<Option<String>>) -> Seq<Option<Seq<char>>> {
    pages.map_values(|p: Option<String>| opt_view(p))
}

/// The text of the pages: each page whose text could be read, followed by
/// a line feed, in order.
pub open spec fn pages_text(pages: Seq<Option<Seq<char>>>) -> Seq<char>
    decreases pages.len(),
{
    if pages.len() == 0 {
        Seq::empty()
    } else {
        pages_text(pages.drop_last()) + match pages.last() {
            Some(t) => t + "\n"@,
            None => Seq::empty(),
        }
    }
}

/// What the page-by-page reader gives, as the conversion uses it: when the
/// document loaded, its page count and the text of its pages.
pub open spec fn document_pages_view(pages: Option<Vec<Option<String>>>) -> Option<(nat, Seq<char>)> {
    match pages {
        Some(v) => Some((v@.len(), pages_text(page_text_views(v@)))),
        None => None,
    }
}

/// The text of all pages of a document, page by page, given what reading
/// each page gave.
pub fn extract_text_from_doc(pages: &Vec<Option<String>>) -> (r: String)
    ensures
        r@ == pages_text(page_text_views(pages@)),
{
    let ghost views = page_text_views(pages@);
    let mut text = String::new();
    let mut i: usize = 0;
    while i < pages.len()
        invariant
            i <= pages@.len(),
            views == page_text_views(pages@),
            text@ == pages_text(views.take(i as int)),
        decreases pages@.len() - i,
    {
        assert(views.take(i + 1).drop_last() =~= views.take(i as int));
        assert(views.take(i + 1).last() == opt_view(pages@[i as int]));
        match &pages[i] {
            Some(t) => {
                text.append(t.as_str());
                text.append("\n");
            },
            None => {},
        }
        i = i + 1;
    }
    assert(views.take(pages@.len() as int) =~= views);
    text
}

/// Convert a PDF, given the primary extractor's text (absent when it
/// failed) and, when the document could be loaded page by page, what
/// reading each of its pages gave (its page count is their number).
pub fn convert_pdf(
    path: &str,
    file_size: u64,
    extracted: Option<String>,
    pages: Option<Vec<Option<String>>>,
) -> (r: Result<ConversionResult, ConvertError>)
    ensures
        pdf_outcome(r, path@, file_size, opt_view(extracted), document_pages_view(pages)),
{
    let document = match &pages {
        Some(v) => Some((v.len(), extract_text_from_doc(v))),
        None => None,
    };
    extract_pdf_to_markdown(path, file_size, extracted, document)
}

} // verus!
