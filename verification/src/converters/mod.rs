//! Conversion results and the choice of converter for a file.

use vstd::prelude::*;
use vstd::string::*;
use crate::utils::{
    InputFormat, OutputFormat, default_output_format, split_whitespace_count, detect_format,
    format_of_extension, lowered_extension, count_words_accurate,
};
use crate::ocr::OcrLanguage;
use crate::text::push_decimal;

pub mod pdf;
pub mod docx;
pub mod xlsx;
pub mod pptx;
pub mod html;
pub mod txt;
pub mod csv;
pub mod json_conv;
pub mod zip_conv;
pub mod image_ocr;

verus! {

/// Why a conversion failed.
#[derive(Debug, Clone)]
pub enum ConvertError {
    /// The file's bytes are not valid UTF-8 text.
    NotUtf8,
    /// The archive could not be read; the message comes from the ZIP reader.
    Zip(String),
    /// The table could not be read; the message comes from the CSV reader.
    Csv(String),
    /// The text is not valid JSON; the message comes from the JSON parser.
    Json(String),
    /// The HTML could not be converted; the message comes from the converter.
    Html(String),
    /// The workbook could not be read; the message comes from the spreadsheet reader.
    Xlsx(String),
    /// The document is not a readable Word file; the message comes from the DOCX reader.
    Docx(String),
    /// No text could be taken from a PDF; the message says why.
    Pdf(String),
    /// Recognising text in an image failed; the message says why.
    Ocr(String),
    /// The RTF control-word pattern could not be compiled; the message comes
    /// from the regular-expression engine.
    Rtf(String),
    /// A total (of sizes or of words) does not fit in a machine integer.
    Overflow,
}

/// Metadata about a converted document.
#[derive(Debug, Clone)]
pub struct DocumentMetadata {
    pub title: Option<String>,
    pub author: Option<String>,
    pub page_count: usize,
    pub word_count: usize,
    pub source_format: InputFormat,
    pub source_path: String,
    pub file_size_bytes: u64,
}

impl Default for DocumentMetadata {
    fn default() -> (r: Self)
        ensures
            r.title is None,
            r.author is None,
            r.page_count == 0,
            r.word_count == 0,
            r.source_format == InputFormat::Unknown,
            r.source_path@ == Seq::<char>::empty(),
            r.file_size_bytes == 0,
    {
        DocumentMetadata {
            title: None,
            author: None,
            page_count: 0,
            word_count: 0,
            source_format: InputFormat::Unknown,
            source_path: String::new(),
            file_size_bytes: 0,
        }
    }
}

/// A single output chunk (page, slide, ...).
#[derive(Debug, Clone)]
pub struct OutputChunk {
    pub page_number: usize,
    pub data: String,
    pub label: String,
}

/// Result of a document conversion.
#[derive(Debug, Clone)]
pub struct ConversionResult {
    pub content: Vec<OutputChunk>,
    pub metadata: DocumentMetadata,
    pub output_format: OutputFormat,
}

/// Total word count of a sequence of pages.
pub open spec fn pages_word_sum(pages: Seq<(String, String)>) -> nat
    decreases pages.len(),
{
    if pages.len() == 0 {
        0
    } else {
        pages_word_sum(pages.drop_last()) + split_whitespace_count(pages.last().0@)
    }
}

/// The separator placed between chunks in the full Markdown.
pub open spec fn chunk_separator() -> Seq<char> {
    "\n\n---\n\n"@
}

/// The data of all chunks joined with the chunk separator.
pub open spec fn joined_chunks(chunks: Seq<OutputChunk>) -> Seq<char>
    decreases chunks.len(),
{
    if chunks.len() == 0 {
        Seq::empty()
    } else if chunks.len() == 1 {
        chunks[0].data@
    } else {
        joined_chunks(chunks.drop_last()) + chunk_separator() + chunks.last().data@
    }
}

/// The full Markdown of a result is the texts of its chunks, in order,
/// joined by the chunk separator; so the full Markdown of a result made by
/// `from_pages` is the page texts joined in order (`from_pages` asks only
/// that the word total fit in a `usize`), and that of a one-chunk result is
/// that chunk's text.
pub proof fn law_full_markdown_joins_pages(chunks: Seq<OutputChunk>, pages: Seq<(String, String)>)
    requires
        chunks.len() == pages.len(),
        forall|i: int| 0 <= i < pages.len() ==> (#[trigger] chunks[i]).data == pages[i].0,
    ensures
        joined_chunks(chunks) == crate::text::joined(
            chunks.map_values(|c: OutputChunk| c.data@),
            chunk_separator(),
        ),
        joined_chunks(chunks) == crate::text::joined(
            pages.map_values(|p: (String, String)| p.0@),
            chunk_separator(),
        ),
    decreases chunks.len(),
{
    let a = chunks.map_values(|c: OutputChunk| c.data@);
    let b = pages.map_values(|p: (String, String)| p.0@);
    assert(a =~= b);
    if chunks.len() > 1 {
        law_full_markdown_joins_pages(chunks.drop_last(), pages.drop_last());
        assert(a.drop_last() =~= chunks.drop_last().map_values(|c: OutputChunk| c.data@));
        assert(b.drop_last() =~= pages.drop_last().map_values(|p: (String, String)| p.0@));
    }
}

/// Whether `f` is the default output format.
pub open spec fn default_output_format_is(f: OutputFormat) -> bool {
    f == default_output_format()
}

/// Metadata `m` with only the word count replaced.
pub open spec fn same_metadata_but_words(a: DocumentMetadata, m: DocumentMetadata) -> bool {
    &&& a.title == m.title
    &&& a.author == m.author
    &&& a.page_count == m.page_count
    &&& a.source_format == m.source_format
    &&& a.source_path == m.source_path
    &&& a.file_size_bytes == m.file_size_bytes
}

/// Whether `r` is the one-chunk result for a document with the given
/// Markdown, title, page count, format, path, size and word count.
pub open spec fn single_chunk_result(
    r: ConversionResult,
    md: Seq<char>,
    title: Option<Seq<char>>,
    page_count: nat,
    format: InputFormat,
    path: Seq<char>,
    size: u64,
    words: nat,
) -> bool {
    &&& r.content@.len() == 1
    &&& r.content@[0].page_number == 1
    &&& r.content@[0].data@ == md
    &&& r.content@[0].label@ == "Full document"@
    &&& match r.metadata.title {
        Some(t) => title == Some(t@),
        None => title is None,
    }
    &&& r.metadata.author is None
    &&& r.metadata.page_count == page_count
    &&& r.metadata.word_count == words
    &&& r.metadata.source_format == format
    &&& r.metadata.source_path@ == path
    &&& r.metadata.file_size_bytes == size
    &&& r.output_format == default_output_format()
}

impl ConversionResult {
    /// A one-chunk result ("Full document") whose word count is recounted
    /// from the Markdown.
    pub fn from_markdown(markdown: String, metadata: DocumentMetadata) -> (r: Self)
        ensures
            r.content@.len() == 1,
            r.content@[0].page_number == 1,
            r.content@[0].data@ == markdown@,
            r.content@[0].label@ == "Full document"@,
            same_metadata_but_words(r.metadata, metadata),
            r.metadata.word_count == split_whitespace_count(markdown@),
            r.output_format == default_output_format(),
    {
        let word_count = count_words_accurate(markdown.as_str());
        let DocumentMetadata { title, author, page_count, word_count: _, source_format, source_path, file_size_bytes } = metadata;
        let mut content: Vec<OutputChunk> = Vec::new();
        content.push(OutputChunk { page_number: 1, data: markdown, label: String::from_str("Full document") });
        ConversionResult {
            content,
            metadata: DocumentMetadata {
                title,
                author,
                page_count,
                word_count,
                source_format,
                source_path,
                file_size_bytes,
            },
            output_format: OutputFormat::Markdown { split_pages: false, optimize_for_llm: true },
        }
    }

    /// A one-chunk result that keeps the metadata as given (the caller has
    /// already counted the words).
    pub fn from_markdown_no_recount(markdown: String, metadata: DocumentMetadata) -> (r: Self)
        ensures
            r.content@.len() == 1,
            r.content@[0].page_number == 1,
            r.content@[0].data@ == markdown@,
            r.content@[0].label@ == "Full document"@,
            r.metadata == metadata,
            r.output_format == default_output_format(),
    {
        let mut content: Vec<OutputChunk> = Vec::new();
        content.push(OutputChunk { page_number: 1, data: markdown, label: String::from_str("Full document") });
        ConversionResult {
            content,
            metadata,
            output_format: OutputFormat::Markdown { split_pages: false, optimize_for_llm: true },
        }
    }

    /// A result with one chunk per page, numbered from 1; the word count is
    /// the total over all pages and the page count is the number of pages.
    pub fn from_pages(pages: Vec<(String, String)>, metadata: DocumentMetadata) -> (r: Self)
        requires
            pages_word_sum(pages@) <= usize::MAX,
        ensures
            r.content@.len() == pages@.len(),
            forall|i: int|
                0 <= i < pages@.len() ==> {
                    &&& (#[trigger] r.content@[i]).page_number == i + 1
                    &&& r.content@[i].data == pages@[i].0
                    &&& r.content@[i].label == pages@[i].1
                },
            r.metadata.title == metadata.title,
            r.metadata.author == metadata.author,
            r.metadata.page_count == pages@.len(),
            r.metadata.word_count == pages_word_sum(pages@),
            r.metadata.source_format == metadata.source_format,
            r.metadata.source_path == metadata.source_path,
            r.metadata.file_size_bytes == metadata.file_size_bytes,
            r.output_format == default_output_format(),
    {
        let page_count = pages.len();
        let mut total: usize = 0;
        let mut content: Vec<OutputChunk> = Vec::new();
        let mut i: usize = 0;
        let ghost all = pages@;
        while i < pages.len()
            invariant
                i <= all.len(),
                pages@ == all,
                pages_word_sum(all) <= usize::MAX,
                total == pages_word_sum(all.take(i as int)),
                content@.len() == i,
                forall|k: int|
                    0 <= k < i ==> {
                        &&& (#[trigger] content@[k]).page_number == k + 1
                        &&& content@[k].data == all[k].0
                        &&& content@[k].label == all[k].1
                    },
            decreases all.len() - i,
        {
            proof {
                lemma_word_sum_prefix(all, i as int + 1);
            }
            assert(all.take(i + 1).drop_last() =~= all.take(i as int));
            let words = count_words_accurate(pages[i].0.as_str());
            total = total + words;
            let data = pages[i].0.clone();
            let label = pages[i].1.clone();
            content.push(OutputChunk { page_number: i + 1, data, label });
            i = i + 1;
        }
        assert(all.take(all.len() as int) =~= all);
        let DocumentMetadata { title, author, page_count: _, word_count: _, source_format, source_path, file_size_bytes } = metadata;
        ConversionResult {
            content,
            metadata: DocumentMetadata {
                title,
                author,
                page_count,
                word_count: total,
                source_format,
                source_path,
                file_size_bytes,
            },
            output_format: OutputFormat::Markdown { split_pages: false, optimize_for_llm: true },
        }
    }

    /// The full Markdown: all chunks joined by a horizontal rule.
    pub fn full_markdown(&self) -> (r: String)
        ensures
            r@ == joined_chunks(self.content@),
    {
        let mut out = String::new();
        let mut i: usize = 0;
        while i < self.content.len()
            invariant
                i <= self.content@.len(),
                out@ == joined_chunks(self.content@.take(i as int)),
            decreases self.content@.len() - i,
        {
            assert(self.content@.take(i + 1).drop_last() =~= self.content@.take(i as int));
            if i > 0 {
                out.append("\n\n---\n\n");
            } else {
                assert(out@ =~= Seq::<char>::empty());
            }
            out.append(self.content[i].data.as_str());
            i = i + 1;
        }
        assert(self.content@.take(self.content@.len() as int) =~= self.content@);
        out
    }
}

/// A prefix's word sum is bounded by the whole sum.
proof fn lemma_word_sum_prefix(pages: Seq<(String, String)>, n: int)
    requires
        0 <= n <= pages.len(),
    ensures
        pages_word_sum(pages.take(n)) <= pages_word_sum(pages),
    decreases pages.len(),
{
    if n < pages.len() {
        assert(pages.drop_last().take(n) =~= pages.take(n));
        lemma_word_sum_prefix(pages.drop_last(), n);
    } else {
        assert(pages.take(n) =~= pages);
    }
}

/// The converter for one input format (enum dispatch over converters).
pub enum Converter {
    Pdf(pdf::PdfConverter),
    Docx(docx::DocxConverter),
    Xlsx(xlsx::XlsxConverter),
    Pptx(pptx::PptxConverter),
    Html(html::HtmlConverter),
    Xml(html::XmlConverter),
    Txt(txt::TxtConverter),
    Csv(csv::CsvConverter),
    Json(json_conv::JsonConverter),
    Zip(zip_conv::ZipConverter),
    Image(image_ocr::ImageOcrConverter),
}

/// Which converter variant handles each format (`None` for unknown formats).
pub open spec fn converter_kind(f: InputFormat) -> Option<InputFormat> {
    match f {
        InputFormat::Pdf => Some(InputFormat::Pdf),
        InputFormat::Docx => Some(InputFormat::Docx),
        InputFormat::Xlsx => Some(InputFormat::Xlsx),
        InputFormat::Pptx => Some(InputFormat::Pptx),
        InputFormat::Html => Some(InputFormat::Html),
        InputFormat::Xml => Some(InputFormat::Xml),
        InputFormat::Txt | InputFormat::Markdown | InputFormat::Rtf | InputFormat::Odt => Some(InputFormat::Txt),
        InputFormat::Csv | InputFormat::Tsv => Some(InputFormat::Csv),
        InputFormat::Json => Some(InputFormat::Json),
        InputFormat::Zip => Some(InputFormat::Zip),
        InputFormat::Image => Some(InputFormat::Image),
        InputFormat::Unknown => None,
    }
}

/// What every converter offers: the format it is registered for, and
/// whether it can convert a file.
pub trait DocumentConverter {
    /// The format the converter is registered for.
    spec fn spec_format(&self) -> InputFormat;

    /// The format the converter is registered for.
    fn format(&self) -> (r: InputFormat)
        ensures
            r == self.spec_format(),
    ;

    /// Whether the file's detected format is the converter's own format.
    fn can_convert(&self, path: &str) -> (r: bool)
        ensures
            r == (format_of_extension(lowered_extension(path@)) == self.spec_format()),
    {
        detect_format(path) == self.format()
    }
}

impl DocumentConverter for Converter {
    open spec fn spec_format(&self) -> InputFormat {
        match *self {
            Converter::Pdf(_) => InputFormat::Pdf,
            Converter::Docx(_) => InputFormat::Docx,
            Converter::Xlsx(_) => InputFormat::Xlsx,
            Converter::Pptx(_) => InputFormat::Pptx,
            Converter::Html(_) => InputFormat::Html,
            Converter::Xml(_) => InputFormat::Xml,
            Converter::Txt(_) => InputFormat::Txt,
            Converter::Csv(_) => InputFormat::Csv,
            Converter::Json(_) => InputFormat::Json,
            Converter::Zip(_) => InputFormat::Zip,
            Converter::Image(_) => InputFormat::Image,
        }
    }

    fn format(&self) -> (r: InputFormat) {
        match self {
            Converter::Pdf(c) => c.format(),
            Converter::Docx(c) => c.format(),
            Converter::Xlsx(c) => c.format(),
            Converter::Pptx(c) => c.format(),
            Converter::Html(c) => c.format(),
            Converter::Xml(c) => c.format(),
            Converter::Txt(c) => c.format(),
            Converter::Csv(c) => c.format(),
            Converter::Json(c) => c.format(),
            Converter::Zip(c) => c.format(),
            Converter::Image(c) => c.format(),
        }
    }
}

/// Factory function: the converter for a file, chosen by its extension.
/// Images get a converter for English, Russian and Simplified Chinese.
pub fn get_converter(path: &str) -> (r: Option<Converter>)
    ensures
        match r {
            Some(c) => converter_kind(format_of_extension(lowered_extension(path@))) == Some(c.spec_format())
                && (c matches Converter::Image(i) ==> i.spec_languages() == seq![
                    OcrLanguage::Eng,
                    OcrLanguage::Rus,
                    OcrLanguage::ChiSim,
                ]),
            None => converter_kind(format_of_extension(lowered_extension(path@))) is None,
        },
{
    match detect_format(path) {
        InputFormat::Pdf => Some(Converter::Pdf(pdf::PdfConverter::new())),
        InputFormat::Docx => Some(Converter::Docx(docx::DocxConverter::new())),
        InputFormat::Xlsx => Some(Converter::Xlsx(xlsx::XlsxConverter::new())),
        InputFormat::Pptx => Some(Converter::Pptx(pptx::PptxConverter::new())),
        InputFormat::Html => Some(Converter::Html(html::HtmlConverter::new())),
        InputFormat::Xml => Some(Converter::Xml(html::XmlConverter::new())),
        InputFormat::Txt | InputFormat::Markdown | InputFormat::Rtf | InputFormat::Odt => Some(
            Converter::Txt(txt::TxtConverter::new()),
        ),
        InputFormat::Csv | InputFormat::Tsv => Some(Converter::Csv(csv::CsvConverter::new())),
        InputFormat::Json => Some(Converter::Json(json_conv::JsonConverter::new())),
        InputFormat::Zip => Some(Converter::Zip(zip_conv::ZipConverter::new())),
        InputFormat::Image => Some(Converter::Image(image_ocr::ImageOcrConverter::with_default_languages())),
        InputFormat::Unknown => None,
    }
}

/// Like `get_converter`, with the given OCR languages for images (English
/// when the list is empty).
pub fn get_converter_with_ocr(path: &str, ocr_languages: &[OcrLanguage]) -> (r: Option<Converter>)
    ensures
        match r {
            Some(c) => converter_kind(format_of_extension(lowered_extension(path@))) == Some(c.spec_format())
                && (c matches Converter::Image(i) ==> i.spec_languages() == if ocr_languages@.len() == 0 {
                    seq![OcrLanguage::Eng]
                } else {
                    ocr_languages@
                }),
            None => converter_kind(format_of_extension(lowered_extension(path@))) is None,
        },
{
    match detect_format(path) {
        InputFormat::Image => {
            let mut v: Vec<OcrLanguage> = Vec::new();
            let mut i: usize = 0;
            while i < ocr_languages.len()
                invariant
                    i <= ocr_languages@.len(),
                    v@ == ocr_languages@.take(i as int),
                decreases ocr_languages@.len() - i,
            {
                v.push(ocr_languages[i]);
                assert(ocr_languages@.take(i + 1) =~= ocr_languages@.take(i as int).push(ocr_languages@[i as int]));
                i = i + 1;
            }
            assert(ocr_languages@.take(ocr_languages@.len() as int) =~= ocr_languages@);
            Some(Converter::Image(image_ocr::ImageOcrConverter::new(v)))
        },
        _ => get_converter(path),
    }
}

/// A file is supported exactly when `get_converter` finds a converter for it.
pub proof fn law_supported_iff_converter(path: Seq<char>)
    ensures
        (format_of_extension(lowered_extension(path)) != InputFormat::Unknown)
            <==> converter_kind(format_of_extension(lowered_extension(path))) is Some,
{
}

/// The converter chosen for a file accepts that file (`can_convert`), except
/// for the formats that share another format's converter: Markdown, RTF and
/// ODT go to the text converter and TSV to the CSV converter.
pub proof fn law_chosen_converter_accepts(path: Seq<char>)
    requires
        format_of_extension(lowered_extension(path)) != InputFormat::Markdown,
        format_of_extension(lowered_extension(path)) != InputFormat::Rtf,
        format_of_extension(lowered_extension(path)) != InputFormat::Odt,
        format_of_extension(lowered_extension(path)) != InputFormat::Tsv,
    ensures
        converter_kind(format_of_extension(lowered_extension(path))) matches Some(f)
            ==> f == format_of_extension(lowered_extension(path)),
{
}

/// What converting a file's bytes gives, by converter (for the converters
/// that need nothing but the bytes).
pub open spec fn document_outcome(
    c: Converter,
    r: Result<ConversionResult, ConvertError>,
    path: Seq<char>,
    data: Seq<u8>,
    file_size: u64,
) -> bool {
    match c {
        Converter::Pptx(_) => pptx::pptx_outcome(r, path, data, file_size),
        Converter::Html(_) => {
            &&& vstd::utf8::valid_utf8(data) ==> match html::htmd_markdown(vstd::utf8::decode_utf8(data)) {
                Ok(md) => r matches Ok(res) && single_chunk_result(
                    res,
                    md,
                    html::html_title(md),
                    1,
                    InputFormat::Html,
                    path,
                    file_size,
                    crate::utils::split_whitespace_count(md),
                ),
                Err(m) => r matches Err(ConvertError::Html(msg)) && msg@ == m,
            }
            &&& !vstd::utf8::valid_utf8(data) ==> r matches Err(ConvertError::NotUtf8)
        },
        Converter::Xml(_) => match r {
            Ok(res) => {
                let md = html::xml_outline(crate::xml::xml_events(vstd::utf8::decode_utf8(data))).0;
                &&& vstd::utf8::valid_utf8(data)
                &&& single_chunk_result(res, md, None, 1, InputFormat::Xml, path, file_size, crate::utils::split_whitespace_count(md))
            },
            Err(e) => !vstd::utf8::valid_utf8(data) && e is NotUtf8,
        },
        Converter::Txt(_) => txt::text_file_outcome(r, path, data, file_size),
        Converter::Csv(_) => csv::csv_outcome(r, path, data, file_size),
        Converter::Json(_) => json_conv::json_outcome(r, path, data, file_size),
        Converter::Zip(_) => zip_conv::zip_outcome(r, path, data, file_size),
        Converter::Pdf(_) | Converter::Image(_) | Converter::Docx(_) | Converter::Xlsx(_) => false,
    }
}

impl Converter {
    /// Whether the converter works from the file's bytes alone (PDF text
    /// extraction, image OCR, the Word reader's check and the workbook
    /// reader run outside the library: they may panic on malformed files).
    pub open spec fn works_on_bytes(&self) -> bool {
        !(*self is Pdf) && !(*self is Image) && !(*self is Docx) && !(*self is Xlsx)
    }

    /// Convert a document from its bytes, with the converter's format.
    pub fn convert_document(&self, path: &str, data: &[u8], file_size: u64) -> (r: Result<ConversionResult, ConvertError>)
        requires
            self.works_on_bytes(),
        ensures
            document_outcome(*self, r, path@, data@, file_size),
    {
        match self {
            Converter::Pptx(_) => pptx::extract_pptx_to_markdown(path, data, file_size),
            Converter::Html(_) => html::extract_html_to_markdown(path, data, file_size),
            Converter::Xml(_) => html::extract_xml_to_markdown(path, data, file_size),
            Converter::Txt(_) => txt::extract_txt_to_markdown(path, data, file_size),
            Converter::Csv(_) => csv::extract_csv_to_markdown(path, data, file_size),
            Converter::Json(_) => json_conv::extract_json_to_markdown(path, data, file_size),
            Converter::Zip(_) => zip_conv::extract_zip_to_markdown(path, data, file_size),
            Converter::Pdf(_) | Converter::Image(_) | Converter::Docx(_) | Converter::Xlsx(_) => Err(
                ConvertError::NotUtf8,
            ),
        }
    }
}

/// The content to write when saving a result.
pub enum SavedContent {
    /// Text (Markdown, JSON or HTML).
    Text(String),
    /// The bytes of a DOCX package.
    Bytes(Vec<u8>),
}

/// The name of the file a page is saved to: `page_<n>.md`.
pub open spec fn page_file_name_spec(n: nat) -> Seq<char> {
    "page_"@ + crate::text::decimal(n) + ".md"@
}

impl ConversionResult {
    /// The content of the saved file for the result's output format: the
    /// exported HTML of the full Markdown, a DOCX package of it (with the
    /// title as first paragraph), or the full Markdown itself.
    pub fn output_content(&self) -> (r: Result<SavedContent, String>)
        ensures
            match self.output_format {
                OutputFormat::Html { .. } => r matches Ok(SavedContent::Text(t)) && t@
                    == crate::export::md_to_html::exported_html(joined_chunks(self.content@), self.output_format),
                OutputFormat::Docx => r is Err || (r matches Ok(SavedContent::Bytes(b))
                    && crate::export::md_to_docx::docx_package_start(b@)
                    && crate::export::md_to_docx::docx_package_paragraphs(b@)
                        == crate::export::md_to_docx::document_form(crate::export::md_to_docx::document_paras(
                            match self.metadata.title {
                                Some(t) => Some(t@),
                                None => None,
                            },
                            crate::export::md_to_docx::markdown_events_of(joined_chunks(self.content@)),
                        ))),
                _ => r matches Ok(SavedContent::Text(t)) && t@ == joined_chunks(self.content@),
            },
    {
        let full = self.full_markdown();
        match self.output_format {
            OutputFormat::Html { .. } => Ok(SavedContent::Text(crate::export::md_to_html::markdown_to_html(full.as_str(), &self.output_format))),
            OutputFormat::Docx => {
                let title = match &self.metadata.title {
                    Some(t) => Some(t.as_str()),
                    None => None,
                };
                match crate::export::md_to_docx::markdown_to_docx(full.as_str(), title) {
                    Ok(b) => Ok(SavedContent::Bytes(b)),
                    Err(m) => Err(m),
                }
            },
            _ => Ok(SavedContent::Text(full)),
        }
    }

    /// The file each page is saved to, with its Markdown: `page_<n>.md`.
    pub fn page_files(&self) -> (r: Vec<(String, String)>)
        ensures
            r@.len() == self.content@.len(),
            forall|i: int|
                0 <= i < r@.len() ==> (#[trigger] r@[i]).0@ == page_file_name_spec(self.content@[i].page_number as nat)
                    && r@[i].1 == self.content@[i].data,
    {
        let mut v: Vec<(String, String)> = Vec::new();
        let mut i: usize = 0;
        while i < self.content.len()
            invariant
                i <= self.content@.len(),
                v@.len() == i,
                forall|k: int|
                    0 <= k < i ==> (#[trigger] v@[k]).0@ == page_file_name_spec(self.content@[k].page_number as nat)
                        && v@[k].1 == self.content@[k].data,
            decreases self.content@.len() - i,
        {
            let mut name = "page_".to_owned();
            push_decimal(&mut name, self.content[i].page_number as u128);
            name.append(".md");
            v.push((name, self.content[i].data.clone()));
            i = i + 1;
        }
        v
    }
}

} // verus!