//! OCR languages, engine status and the post-processing of recognised text.

use vstd::prelude::*;
use vstd::string::*;
use crate::text::{chars_of, trim, trim_start, trim_end, trim_chars, string_from_chars, replace_all, replace_chars, has_prefix};

verus! {

/// Supported OCR languages.
#[derive(Debug, Clone, Copy, PartialEq, Eq, Hash, Structural)]
pub enum OcrLanguage {
    /// English
    Eng,
    /// Russian
    Rus,
    /// Simplified Chinese
    ChiSim,
}

impl OcrLanguage {
    /// Return the Tesseract language code used on the command line.
    pub fn tesseract_code(&self) -> (r: &'static str)
        ensures
            r@ == tesseract_code_of(*self),
    {
        match self {
            OcrLanguage::Eng => "eng",
            OcrLanguage::Rus => "rus",
            OcrLanguage::ChiSim => "chi_sim",
        }
    }

    /// Return the filename used for the traineddata file.
    pub fn filename(&self) -> (r: &'static str)
        ensures
            r@ == match *self {
                OcrLanguage::Eng => "eng.traineddata"@,
                OcrLanguage::Rus => "rus.traineddata"@,
                OcrLanguage::ChiSim => "chi_sim.traineddata"@,
            },
    {
        match self {
            OcrLanguage::Eng => "eng.traineddata",
            OcrLanguage::Rus => "rus.traineddata",
            OcrLanguage::ChiSim => "chi_sim.traineddata",
        }
    }

    /// Return the download URL for this language's tessdata file.
    pub fn download_url(&self) -> (r: &'static str)
        ensures
            r@ == match *self {
                OcrLanguage::Eng => "https://github.com/tesseract-ocr/tessdata_fast/raw/main/eng.traineddata"@,
                OcrLanguage::Rus => "https://github.com/tesseract-ocr/tessdata_fast/raw/main/rus.traineddata"@,
                OcrLanguage::ChiSim => "https://github.com/tesseract-ocr/tessdata_fast/raw/main/chi_sim.traineddata"@,
            },
    {
        match self {
            OcrLanguage::Eng => "https://github.com/tesseract-ocr/tessdata_fast/raw/main/eng.traineddata",
            OcrLanguage::Rus => "https://github.com/tesseract-ocr/tessdata_fast/raw/main/rus.traineddata",
            OcrLanguage::ChiSim => "https://github.com/tesseract-ocr/tessdata_fast/raw/main/chi_sim.traineddata",
        }
    }

    /// Whether this language is supported by the built-in engine.
    pub fn is_builtin_supported(&self) -> (r: bool)
        ensures
            r == (*self == OcrLanguage::Eng),
    {
        matches!(self, OcrLanguage::Eng)
    }

    /// Display name ("English", "Russian", "Simplified Chinese").
    pub fn display_name(&self) -> (r: &'static str)
        ensures
            r@ == ocr_language_name(*self),
    {
        match self {
            OcrLanguage::Eng => "English",
            OcrLanguage::Rus => "Russian",
            OcrLanguage::ChiSim => "Simplified Chinese",
        }
    }
}

/// Tesseract code of each language.
pub open spec fn tesseract_code_of(l: OcrLanguage) -> Seq<char> {
    match l {
        OcrLanguage::Eng => "eng"@,
        OcrLanguage::Rus => "rus"@,
        OcrLanguage::ChiSim => "chi_sim"@,
    }
}

/// Display name of each language.
pub open spec fn ocr_language_name(l: OcrLanguage) -> Seq<char> {
    match l {
        OcrLanguage::Eng => "English"@,
        OcrLanguage::Rus => "Russian"@,
        OcrLanguage::ChiSim => "Simplified Chinese"@,
    }
}

/// Which engine recognises the text of an image.
#[derive(Debug, Clone, Copy, PartialEq, Eq, Structural)]
pub enum OcrEngine {
    /// The Tesseract command-line program.
    Tesseract,
    /// The built-in engine (English only).
    Builtin,
}

/// Why no OCR engine was started.
#[derive(Debug, Clone)]
pub enum OcrError {
    /// The list of languages was empty.
    NoLanguages,
    /// The image file does not exist; holds the message.
    MissingImage(String),
}

impl OcrError {
    /// The message the error is reported with.
    pub fn message(&self) -> (r: String)
        ensures
            r@ == match *self {
                OcrError::NoLanguages => "At least one OCR language must be specified"@,
                OcrError::MissingImage(m) => m@,
            },
    {
        match self {
            OcrError::NoLanguages => String::from_str("At least one OCR language must be specified"),
            OcrError::MissingImage(m) => m.clone(),
        }
    }
}

/// Whether some language needs Tesseract (is not supported by the built-in engine).
pub open spec fn needs_tesseract(languages: Seq<OcrLanguage>) -> bool {
    exists|i: int| 0 <= i < languages.len() && languages[i] != OcrLanguage::Eng
}

/// Choose the OCR engine for an image: Tesseract when some language needs it
/// and Tesseract is installed, the built-in engine otherwise (English only,
/// also when other languages were asked for but Tesseract is missing).
pub fn select_ocr_engine(
    image_path: &str,
    languages: &[OcrLanguage],
    image_exists: bool,
    tesseract_available: bool,
) -> (r: Result<OcrEngine, OcrError>)
    ensures
        languages@.len() == 0 ==> r is Err && r->Err_0 is NoLanguages,
        languages@.len() > 0 && !image_exists ==> r is Err && (r->Err_0 matches OcrError::MissingImage(m)
            && m@ == "Image file does not exist: "@ + image_path@),
        languages@.len() > 0 && image_exists ==> r == Ok::<OcrEngine, OcrError>(
            if needs_tesseract(languages@) && tesseract_available {
                OcrEngine::Tesseract
            } else {
                OcrEngine::Builtin
            },
        ),
{
    if languages.len() == 0 {
        return Err(OcrError::NoLanguages);
    }
    if !image_exists {
        let mut m = String::from_str("Image file does not exist: ");
        m.append(image_path);
        return Err(OcrError::MissingImage(m));
    }
    let mut needs = false;
    let mut i: usize = 0;
    while i < languages.len()
        invariant
            i <= languages@.len(),
            needs == exists|j: int| 0 <= j < i && languages@[j] != OcrLanguage::Eng,
        decreases languages@.len() - i,
    {
        if !languages[i].is_builtin_supported() {
            needs = true;
        }
        i = i + 1;
    }
    if needs && tesseract_available {
        Ok(OcrEngine::Tesseract)
    } else {
        Ok(OcrEngine::Builtin)
    }
}

/// The languages whose data files must be present: English when none are given.
pub fn tessdata_languages(languages: &[OcrLanguage]) -> (r: Vec<OcrLanguage>)
    ensures
        r@ == if languages@.len() == 0 { seq![OcrLanguage::Eng] } else { languages@ },
{
    let mut r: Vec<OcrLanguage> = Vec::new();
    if languages.len() == 0 {
        r.push(OcrLanguage::Eng);
        return r;
    }
    let mut i: usize = 0;
    while i < languages.len()
        invariant
            i <= languages@.len(),
            r@ == languages@.take(i as int),
        decreases languages@.len() - i,
    {
        r.push(languages[i]);
        assert(languages@.take(i + 1) =~= languages@.take(i as int).push(languages@[i as int]));
        i = i + 1;
    }
    assert(languages@.take(languages@.len() as int) =~= languages@);
    r
}

/// Tesseract codes joined with `+`, as the `-l` option takes them.
pub open spec fn joined_codes(languages: Seq<OcrLanguage>) -> Seq<char>
    decreases languages.len(),
{
    if languages.len() == 0 {
        Seq::empty()
    } else if languages.len() == 1 {
        tesseract_code_of(languages[0])
    } else {
        joined_codes(languages.drop_last()) + "+"@ + tesseract_code_of(languages.last())
    }
}

/// The value of Tesseract's `-l` option for the given languages.
pub fn tesseract_lang_arg(languages: &[OcrLanguage]) -> (r: String)
    ensures
        r@ == joined_codes(languages@),
{
    let mut out = String::new();
    let mut i: usize = 0;
    while i < languages.len()
        invariant
            i <= languages@.len(),
            out@ == joined_codes(languages@.take(i as int)),
        decreases languages@.len() - i,
    {
        assert(languages@.take(i + 1).drop_last() =~= languages@.take(i as int));
        if i > 0 {
            out.append("+");
        } else {
            assert(out@ =~= Seq::<char>::empty());
        }
        out.append(languages[i].tesseract_code());
        i = i + 1;
    }
    assert(languages@.take(languages@.len() as int) =~= languages@);
    out
}

/// Display names joined with `, `.
pub open spec fn joined_names(languages: Seq<OcrLanguage>) -> Seq<char>
    decreases languages.len(),
{
    if languages.len() == 0 {
        Seq::empty()
    } else if languages.len() == 1 {
        ocr_language_name(languages[0])
    } else {
        joined_names(languages.drop_last()) + ", "@ + ocr_language_name(languages.last())
    }
}

/// The display names of the languages, joined with `, `.
pub fn language_names(languages: &[OcrLanguage]) -> (r: String)
    ensures
        r@ == joined_names(languages@),
{
    let mut out = String::new();
    let mut i: usize = 0;
    while i < languages.len()
        invariant
            i <= languages@.len(),
            out@ == joined_names(languages@.take(i as int)),
        decreases languages@.len() - i,
    {
        assert(languages@.take(i + 1).drop_last() =~= languages@.take(i as int));
        if i > 0 {
            out.append(", ");
        } else {
            assert(out@ =~= Seq::<char>::empty());
        }
        out.append(languages[i].display_name());
        i = i + 1;
    }
    assert(languages@.take(languages@.len() as int) =~= languages@);
    out
}

// ── Engine status ─────────────────────────────────────────────────────────

/// Detailed OCR engine status for display.
#[derive(Debug, Clone, Copy, PartialEq, Eq, Structural)]
pub enum OcrEngineStatus {
    /// Both engines are available.
    BothAvailable,
    /// Only the built-in engine is available (English only).
    BuiltinOnly,
    /// Only Tesseract is available.
    TesseractOnly,
    /// Neither engine is available.
    NoneAvailable,
}

impl OcrEngineStatus {
    /// The status for the given availability of the two engines.
    pub fn from_availability(has_builtin: bool, has_tesseract: bool) -> (r: Self)
        ensures
            r == match (has_builtin, has_tesseract) {
                (true, true) => OcrEngineStatus::BothAvailable,
                (true, false) => OcrEngineStatus::BuiltinOnly,
                (false, true) => OcrEngineStatus::TesseractOnly,
                (false, false) => OcrEngineStatus::NoneAvailable,
            },
    {
        match (has_builtin, has_tesseract) {
            (true, true) => OcrEngineStatus::BothAvailable,
            (true, false) => OcrEngineStatus::BuiltinOnly,
            (false, true) => OcrEngineStatus::TesseractOnly,
            (false, false) => OcrEngineStatus::NoneAvailable,
        }
    }

    /// Get the status bar label.
    pub fn status_label(&self) -> (r: &'static str)
        ensures
            r@ == match *self {
                OcrEngineStatus::BothAvailable => "OCR: ocrs + Tesseract"@,
                OcrEngineStatus::BuiltinOnly => "OCR: ocrs (English)"@,
                OcrEngineStatus::TesseractOnly => "OCR: Tesseract"@,
                OcrEngineStatus::NoneAvailable => "OCR: unavailable"@,
            },
    {
        match self {
            OcrEngineStatus::BothAvailable => "OCR: ocrs + Tesseract",
            OcrEngineStatus::BuiltinOnly => "OCR: ocrs (English)",
            OcrEngineStatus::TesseractOnly => "OCR: Tesseract",
            OcrEngineStatus::NoneAvailable => "OCR: unavailable",
        }
    }

    /// Get the tooltip.
    pub fn tooltip(&self) -> (r: &'static str)
        ensures
            r@ == match *self {
                OcrEngineStatus::BothAvailable => "Built-in ocrs for English + Tesseract for all languages"@,
                OcrEngineStatus::BuiltinOnly => "Built-in ocrs engine (English, models embedded). Install Tesseract for more languages."@,
                OcrEngineStatus::TesseractOnly => "Tesseract OCR is available. Built-in engine not compiled in."@,
                OcrEngineStatus::NoneAvailable => "No OCR engine available. This should not happen."@,
            },
    {
        match self {
            OcrEngineStatus::BothAvailable => "Built-in ocrs for English + Tesseract for all languages",
            OcrEngineStatus::BuiltinOnly => "Built-in ocrs engine (English, models embedded). Install Tesseract for more languages.",
            OcrEngineStatus::TesseractOnly => "Tesseract OCR is available. Built-in engine not compiled in.",
            OcrEngineStatus::NoneAvailable => "No OCR engine available. This should not happen.",
        }
    }
}

/// Tesseract status, as an older part of the interface shows it.
#[derive(Debug, Clone, Copy, PartialEq, Eq, Structural)]
pub enum TesseractStatus {
    /// Tesseract is available and ready.
    Available,
    /// Tesseract was not found.
    NotInstalled,
}

impl TesseractStatus {
    /// The status for the given availability of Tesseract.
    pub fn from_availability(available: bool) -> (r: Self)
        ensures
            r == if available { TesseractStatus::Available } else { TesseractStatus::NotInstalled },
    {
        if available {
            TesseractStatus::Available
        } else {
            TesseractStatus::NotInstalled
        }
    }

    /// Get the status bar label.
    pub fn status_label(&self) -> (r: &'static str)
        ensures
            r@ == match *self {
                TesseractStatus::Available => "OCR: Tesseract OK"@,
                TesseractStatus::NotInstalled => "OCR: ocrs (built-in) | Tesseract: not installed"@,
            },
    {
        match self {
            TesseractStatus::Available => "OCR: Tesseract OK",
            TesseractStatus::NotInstalled => "OCR: ocrs (built-in) | Tesseract: not installed",
        }
    }

    /// Get the tooltip.
    pub fn tooltip(&self) -> (r: &'static str)
        ensures
            r@ == match *self {
                TesseractStatus::Available => "Tesseract OCR is available. Built-in ocrs + Tesseract for all languages."@,
                TesseractStatus::NotInstalled => "Built-in ocrs works for English (models embedded in binary, no download needed). Install Tesseract for Russian, Chinese, and 100+ languages.\nLinux: sudo apt install tesseract-ocr\nmacOS: brew install tesseract\nWindows: click 'Install Tesseract' button below."@,
            },
    {
        match self {
            TesseractStatus::Available => "Tesseract OCR is available. Built-in ocrs + Tesseract for all languages.",
            TesseractStatus::NotInstalled => "Built-in ocrs works for English (models embedded in binary, no download needed). Install Tesseract for Russian, Chinese, and 100+ languages.\nLinux: sudo apt install tesseract-ocr\nmacOS: brew install tesseract\nWindows: click 'Install Tesseract' button below.",
        }
    }
}

// ── Post-processing ───────────────────────────────────────────────────────

/// Newlines collapsed: a run of line feeds keeps at most two of them.
pub open spec fn collapse_fold(t: Seq<char>) -> (Seq<char>, nat)
    decreases t.len(),
{
    if t.len() == 0 {
        (Seq::empty(), 0)
    } else {
        let prev = collapse_fold(t.drop_last());
        if t.last() == '\n' {
            (if prev.1 + 1 <= 2 { prev.0.push('\n') } else { prev.0 }, prev.1 + 1)
        } else {
            (prev.0.push(t.last()), 0)
        }
    }
}

/// Raw OCR text as Markdown: line endings normalised to `\n`, runs of three
/// or more newlines cut to two, and surrounding whitespace trimmed.
pub open spec fn postprocess_spec(raw: Seq<char>) -> Seq<char> {
    trim(collapse_fold(replace_all(replace_all(raw, "\r\n"@, "\n"@), "\r"@, "\n"@)).0)
}

/// Minimal post-processing of raw OCR text into Markdown.
pub fn postprocess_to_markdown(raw: &str) -> (r: String)
    ensures
        r@ == postprocess_spec(raw@),
{
    proof {
        reveal_strlit("\r\n");
        reveal_strlit("\r");
    }
    let a = chars_of(raw);
    let crlf = chars_of("\r\n");
    let cr = chars_of("\r");
    let lf = chars_of("\n");
    let b = replace_chars(a.as_slice(), crlf.as_slice(), lf.as_slice());
    let text = replace_chars(b.as_slice(), cr.as_slice(), lf.as_slice());
    let mut result: Vec<char> = Vec::new();
    let mut consecutive: usize = 0;
    let mut i: usize = 0;
    while i < text.len()
        invariant
            i <= text@.len(),
            consecutive <= i,
            (result@, consecutive as nat) == collapse_fold(text@.take(i as int)),
        decreases text@.len() - i,
    {
        assert(text@.take(i + 1).drop_last() =~= text@.take(i as int));
        let ch = text[i];
        if ch == '\n' {
            consecutive = consecutive + 1;
            if consecutive <= 2 {
                result.push(ch);
            }
        } else {
            consecutive = 0;
            result.push(ch);
        }
        i = i + 1;
    }
    assert(text@.take(text@.len() as int) =~= text@);
    let t = trim_chars(result.as_slice());
    string_from_chars(t.as_slice())
}


/// Whether the character `c` does not occur in `s`.
pub open spec fn lacks_char(s: Seq<char>, c: char) -> bool {
    forall|i: int| 0 <= i < s.len() ==> #[trigger] s[i] != c
}

/// Whether `s` never has three line feeds in a row.
pub open spec fn no_three_newlines(s: Seq<char>) -> bool {
    forall|i: int| 0 <= i && i + 2 < s.len() ==> !(#[trigger] s[i] == '\n' && s[i + 1] == '\n' && s[i + 2] == '\n')
}

proof fn lemma_replace_single_removes(s: Seq<char>, c: char, d: char)
    requires
        c != d,
    ensures
        lacks_char(replace_all(s, seq![c], seq![d]), c),
    decreases s.len(),
{
    if s.len() > 0 {
        let r = replace_all(s, seq![c], seq![d]);
        if has_prefix(s, seq![c]) {
            lemma_replace_single_removes(s.skip(1), c, d);
            let rest = replace_all(s.skip(1), seq![c], seq![d]);
            assert forall|i: int| 0 <= i < r.len() implies #[trigger] r[i] != c by {
                if i > 0 {
                    assert(r[i] == rest[i - 1]);
                }
            }
        } else {
            assert(s.take(1) =~= seq![s[0]]);
            lemma_replace_single_removes(s.drop_first(), c, d);
            let rest = replace_all(s.drop_first(), seq![c], seq![d]);
            assert forall|i: int| 0 <= i < r.len() implies #[trigger] r[i] != c by {
                if i > 0 {
                    assert(r[i] == rest[i - 1]);
                }
            }
        }
    }
}

proof fn lemma_collapse_fold(t: Seq<char>)
    ensures
        collapse_fold(t).1 == 0 ==> collapse_fold(t).0.len() == 0 || collapse_fold(t).0.last() != '\n',
        collapse_fold(t).1 == 1 ==> collapse_fold(t).0.len() >= 1 && collapse_fold(t).0.last() == '\n'
            && (collapse_fold(t).0.len() < 2 || collapse_fold(t).0[collapse_fold(t).0.len() - 2] != '\n'),
        collapse_fold(t).1 >= 2 ==> collapse_fold(t).0.len() >= 2 && collapse_fold(t).0.last() == '\n'
            && collapse_fold(t).0[collapse_fold(t).0.len() - 2] == '\n',
        no_three_newlines(collapse_fold(t).0),
        lacks_char(t, '\r') ==> lacks_char(collapse_fold(t).0, '\r'),
    decreases t.len(),
{
    if t.len() > 0 {
        let u = t.drop_last();
        lemma_collapse_fold(u);
        let (p, k) = collapse_fold(u);
        let r = collapse_fold(t).0;
        if lacks_char(t, '\r') {
            assert forall|i: int| 0 <= i < u.len() implies #[trigger] u[i] != '\r' by {
                assert(u[i] == t[i]);
            }
        }
        if t.last() != '\n' || k + 1 <= 2 {
            assert(r == p.push(t.last()));
            assert forall|i: int| 0 <= i && i + 2 < r.len()
                implies !(#[trigger] r[i] == '\n' && r[i + 1] == '\n' && r[i + 2] == '\n') by {
                if i + 2 < p.len() {
                    assert(r[i] == p[i] && r[i + 1] == p[i + 1] && r[i + 2] == p[i + 2]);
                } else {
                    assert(r[i] == p[i] && r[i + 1] == p[i + 1]);
                }
            }
            if lacks_char(t, '\r') {
                assert forall|i: int| 0 <= i < r.len() implies #[trigger] r[i] != '\r' by {
                    if i < p.len() {
                        assert(r[i] == p[i]);
                    }
                }
            }
        }
    }
}

proof fn lemma_trim_subrange(s: Seq<char>)
    ensures
        exists|a: int, b: int| 0 <= a <= b <= s.len() && #[trigger] s.subrange(a, b) == trim(s),
{
    lemma_trim_start_skip(s);
    let a = choose|a: int| 0 <= a <= s.len() && #[trigger] s.skip(a) == trim_start(s);
    let m = trim_start(s);
    lemma_trim_end_take(m);
    let b = choose|b: int| 0 <= b <= m.len() && #[trigger] m.take(b) == trim_end(m);
    assert(s.subrange(a, a + b) =~= m.take(b));
}

proof fn lemma_trim_start_skip(s: Seq<char>)
    ensures
        exists|a: int| 0 <= a <= s.len() && #[trigger] s.skip(a) == trim_start(s),
    decreases s.len(),
{
    if s.len() > 0 && crate::text::is_ws(s[0]) {
        lemma_trim_start_skip(s.drop_first());
        let a = choose|a: int| 0 <= a <= s.drop_first().len() && #[trigger] s.drop_first().skip(a) == trim_start(s.drop_first());
        assert(s.skip(a + 1) =~= s.drop_first().skip(a));
    } else {
        assert(s.skip(0) =~= s);
    }
}

proof fn lemma_trim_end_take(s: Seq<char>)
    ensures
        exists|b: int| 0 <= b <= s.len() && #[trigger] s.take(b) == trim_end(s),
    decreases s.len(),
{
    if s.len() > 0 && crate::text::is_ws(s.last()) {
        lemma_trim_end_take(s.drop_last());
        let b = choose|b: int| 0 <= b <= s.drop_last().len() && #[trigger] s.drop_last().take(b) == trim_end(s.drop_last());
        assert(s.take(b) =~= s.drop_last().take(b));
    } else {
        assert(s.take(s.len() as int) =~= s);
    }
}

/// Recognised text comes out with its line endings normalised and its
/// blank runs collapsed: the result holds no carriage return and never
/// three line feeds in a row.
pub proof fn law_ocr_text_normalised(raw: Seq<char>)
    ensures
        lacks_char(postprocess_spec(raw), '\r'),
        no_three_newlines(postprocess_spec(raw)),
{
    reveal_strlit("\r");
    reveal_strlit("\n");
    assert("\r"@ =~= seq!['\r']);
    assert("\n"@ =~= seq!['\n']);
    let t = replace_all(replace_all(raw, "\r\n"@, "\n"@), "\r"@, "\n"@);
    lemma_replace_single_removes(replace_all(raw, "\r\n"@, "\n"@), '\r', '\n');
    lemma_collapse_fold(t);
    let c = collapse_fold(t).0;
    lemma_trim_subrange(c);
    let (a, b) = choose|a: int, b: int| 0 <= a <= b <= c.len() && #[trigger] c.subrange(a, b) == trim(c);
    let r = trim(c);
    assert forall|i: int| 0 <= i < r.len() implies #[trigger] r[i] != '\r' by {
        assert(r[i] == c[a + i]);
    }
    assert forall|i: int| 0 <= i && i + 2 < r.len()
        implies !(#[trigger] r[i] == '\n' && r[i + 1] == '\n' && r[i + 2] == '\n') by {
        assert(r[i] == c[a + i] && r[i + 1] == c[a + i + 1] && r[i + 2] == c[a + i + 2]);
    }
}

} // verus!
