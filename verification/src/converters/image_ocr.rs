//! Images: the text recognised in them becomes Markdown.

use vstd::prelude::*;
use vstd::string::*;
use crate::utils::{InputFormat, path_file_name, path_file_name_of};
use crate::ocr::{OcrLanguage, language_names, joined_names};
use crate::text::trim;
use super::{DocumentConverter, ConversionResult, DocumentMetadata};
use super::txt::is_full_result;

verus! {

/// Image OCR converter.
pub struct ImageOcrConverter {
    languages: Vec<OcrLanguage>,
}

impl ImageOcrConverter {
    /// The languages the converter recognises.
    pub closed spec fn spec_languages(&self) -> Seq<OcrLanguage> {
        self.languages@
    }

    /// A converter for the given languages; English when none are given.
    pub fn new(languages: Vec<OcrLanguage>) -> (r: Self)
        ensures
            r.spec_languages() == if languages@.len() == 0 { seq![OcrLanguage::Eng] } else { languages@ },
    {
        if languages.len() == 0 {
            let mut v: Vec<OcrLanguage> = Vec::new();
            v.push(OcrLanguage::Eng);
            ImageOcrConverter { languages: v }
        } else {
            ImageOcrConverter { languages }
        }
    }

    /// A converter for English, Russian and Simplified Chinese.
    pub fn with_default_languages() -> (r: Self)
        ensures
            r.spec_languages() == seq![OcrLanguage::Eng, OcrLanguage::Rus, OcrLanguage::ChiSim],
    {
        let mut v: Vec<OcrLanguage> = Vec::new();
        v.push(OcrLanguage::Eng);
        v.push(OcrLanguage::Rus);
        v.push(OcrLanguage::ChiSim);
        assert(v@ =~= seq![OcrLanguage::Eng, OcrLanguage::Rus, OcrLanguage::ChiSim]);
        Self::new(v)
    }

    /// The languages the converter recognises.
    pub fn languages(&self) -> (r: &Vec<OcrLanguage>)
        ensures
            r@ == self.spec_languages(),
    {
        &self.languages
    }
}

impl DocumentConverter for ImageOcrConverter {
    open spec fn spec_format(&self) -> InputFormat {
        InputFormat::Image
    }

    fn format(&self) -> (r: InputFormat) {
        InputFormat::Image
    }
}

/// The name an image is shown under: its file name, or `image`.
pub open spec fn image_display_name(path: Seq<char>) -> Seq<char> {
    match path_file_name_of(path) {
        Some(n) => n,
        None => "image"@,
    }
}

/// The Markdown of an image's OCR result.
pub open spec fn ocr_markdown(name: Seq<char>, languages: Seq<OcrLanguage>, ocr_text: Seq<char>) -> Seq<char> {
    "# OCR Result: "@ + name + "\n\n"@ + "*OCR Languages: "@ + joined_names(languages) + "*\n\n"@
        + if trim(ocr_text).len() == 0 { "*No text detected in image*\n"@ } else { ocr_text }
}

/// Build the result for an image from the text recognised in it.
pub fn extract_image_ocr_to_markdown(
    path: &str,
    file_size: u64,
    languages: &[OcrLanguage],
    ocr_text: &str,
) -> (r: ConversionResult)
    ensures
        ({
            let name = image_display_name(path@);
            is_full_result(r, ocr_markdown(name, languages@, ocr_text@), Some(name), 1, InputFormat::Image, path@, file_size)
        }),
{
    let filename = match path_file_name(path) {
        Some(n) => n,
        None => String::from_str("image"),
    };
    let mut markdown = String::from_str("# OCR Result: ");
    markdown.append(filename.as_str());
    markdown.append("\n\n");
    markdown.append("*OCR Languages: ");
    let names = language_names(languages);
    markdown.append(names.as_str());
    markdown.append("*\n\n");
    let chars = crate::text::chars_of(ocr_text);
    let (a, b) = crate::text::trim_bounds(chars.as_slice());
    if a == b {
        markdown.append("*No text detected in image*\n");
    } else {
        markdown.append(ocr_text);
    }
    let metadata = DocumentMetadata {
        title: Some(filename),
        author: None,
        page_count: 1,
        word_count: 0,
        source_format: InputFormat::Image,
        source_path: path.to_owned(),
        file_size_bytes: file_size,
    };
    ConversionResult::from_markdown(markdown, metadata)
}

} // verus!
