//! Command-line options: output format and OCR language names.

use vstd::prelude::*;
use crate::text::str_eq;
use crate::utils::{OutputFormat, to_lowercase, lowercase_of, default_output_format};
use crate::ocr::OcrLanguage;

verus! {

/// The output format that a (lower-case) format name selects: `html` or
/// `htm`, `docx`, `doc` or `word`, `json`, and Markdown for anything else.
pub open spec fn output_format_named(name: Seq<char>) -> OutputFormat {
    if name == "html"@ || name == "htm"@ {
        OutputFormat::Html { standalone: true, include_css: true }
    } else if name == "docx"@ || name == "doc"@ || name == "word"@ {
        OutputFormat::Docx
    } else if name == "json"@ {
        OutputFormat::Json { structured: true, include_metadata: true }
    } else {
        default_output_format()
    }
}

/// Parse an output format name, ignoring case.
pub fn parse_output_format(fmt: &str) -> (r: OutputFormat)
    ensures
        r == output_format_named(lowercase_of(fmt@)),
{
    let lower = to_lowercase(fmt);
    let l = lower.as_str();
    if str_eq(l, "html") || str_eq(l, "htm") {
        OutputFormat::Html { standalone: true, include_css: true }
    } else if str_eq(l, "docx") || str_eq(l, "doc") || str_eq(l, "word") {
        OutputFormat::Docx
    } else if str_eq(l, "json") {
        OutputFormat::Json { structured: true, include_metadata: true }
    } else {
        OutputFormat::Markdown { split_pages: false, optimize_for_llm: true }
    }
}

/// The OCR language a code names: `eng`, `rus`, and `chi_sim` or `chi`.
pub open spec fn ocr_language_named(code: Seq<char>) -> Option<OcrLanguage> {
    if code == "eng"@ {
        Some(OcrLanguage::Eng)
    } else if code == "rus"@ {
        Some(OcrLanguage::Rus)
    } else if code == "chi_sim"@ || code == "chi"@ {
        Some(OcrLanguage::ChiSim)
    } else {
        None
    }
}

/// The languages that the codes name, in order, unknown codes left out.
pub open spec fn named_languages(codes: Seq<Seq<char>>) -> Seq<OcrLanguage>
    decreases codes.len(),
{
    if codes.len() == 0 {
        Seq::empty()
    } else {
        match ocr_language_named(codes.last()) {
            Some(l) => named_languages(codes.drop_last()).push(l),
            None => named_languages(codes.drop_last()),
        }
    }
}

/// The OCR languages of a list of codes: those named, or English when none is.
pub open spec fn ocr_languages_of(codes: Seq<Seq<char>>) -> Seq<OcrLanguage> {
    if named_languages(codes).len() == 0 {
        seq![OcrLanguage::Eng]
    } else {
        named_languages(codes)
    }
}

/// Parse OCR language codes; English when no code is known.
pub fn parse_ocr_langs(lang_strs: &[String]) -> (r: Vec<OcrLanguage>)
    ensures
        r@ == ocr_languages_of(lang_strs@.map_values(|s: String| s@)),
{
    let ghost codes = lang_strs@.map_values(|s: String| s@);
    let mut langs: Vec<OcrLanguage> = Vec::new();
    let mut i: usize = 0;
    while i < lang_strs.len()
        invariant
            i <= lang_strs@.len(),
            codes == lang_strs@.map_values(|s: String| s@),
            langs@ == named_languages(codes.take(i as int)),
        decreases lang_strs@.len() - i,
    {
        assert(codes.take(i + 1).drop_last() =~= codes.take(i as int));
        assert(codes.take(i + 1).last() == lang_strs@[i as int]@);
        let s = lang_strs[i].as_str();
        if str_eq(s, "eng") {
            langs.push(OcrLanguage::Eng);
        } else if str_eq(s, "rus") {
            langs.push(OcrLanguage::Rus);
        } else if str_eq(s, "chi_sim") || str_eq(s, "chi") {
            langs.push(OcrLanguage::ChiSim);
        }
        i = i + 1;
    }
    assert(codes.take(lang_strs@.len() as int) =~= codes);
    if langs.len() == 0 {
        let mut v: Vec<OcrLanguage> = Vec::new();
        v.push(OcrLanguage::Eng);
        v
    } else {
        langs
    }
}


/// The OCR languages ticked in the interface, in the order English,
/// Russian, Simplified Chinese; English when none is ticked.
pub open spec fn ticked_languages(eng: bool, rus: bool, chi_sim: bool) -> Seq<OcrLanguage> {
    let picked = (if eng { seq![OcrLanguage::Eng] } else { Seq::empty() })
        + (if rus { seq![OcrLanguage::Rus] } else { Seq::empty() })
        + (if chi_sim { seq![OcrLanguage::ChiSim] } else { Seq::empty() });
    if picked.len() == 0 {
        seq![OcrLanguage::Eng]
    } else {
        picked
    }
}

/// The OCR languages ticked in the interface; English when none is.
pub fn selected_ocr_languages(eng: bool, rus: bool, chi_sim: bool) -> (r: Vec<OcrLanguage>)
    ensures
        r@ == ticked_languages(eng, rus, chi_sim),
{
    let mut langs: Vec<OcrLanguage> = Vec::new();
    if eng {
        langs.push(OcrLanguage::Eng);
    }
    if rus {
        langs.push(OcrLanguage::Rus);
    }
    if chi_sim {
        langs.push(OcrLanguage::ChiSim);
    }
    if langs.len() == 0 {
        langs.push(OcrLanguage::Eng);
    }
    assert(langs@ =~= ticked_languages(eng, rus, chi_sim));
    langs
}

} // verus!
