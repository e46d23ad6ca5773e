//! Format detection, sizes and word counting.

use vstd::prelude::*;
use vstd::utf8::{encode_utf8, encode_scalar};
use vstd::string::*;
use crate::text::{lemma_encode_utf8_len, is_ws, char_is_whitespace, decimal, push_decimal, push_char, str_eq, chars_of, slice_chars, string_from_chars};

verus! {

// ── Formats ───────────────────────────────────────────────────────────────

/// Supported input file formats.
#[derive(Debug, Clone, Copy, PartialEq, Eq, Hash, Structural)]
pub enum InputFormat {
    Pdf,
    Docx,
    Xlsx,
    Pptx,
    Html,
    Xml,
    Txt,
    Csv,
    Tsv,
    Rtf,
    Odt,
    Json,
    Zip,
    Image,
    Markdown,
    Unknown,
}

/// Display name of each input format.
pub open spec fn format_name(f: InputFormat) -> Seq<char> {
    match f {
        InputFormat::Pdf => "PDF"@,
        InputFormat::Docx => "DOCX"@,
        InputFormat::Xlsx => "XLSX"@,
        InputFormat::Pptx => "PPTX"@,
        InputFormat::Html => "HTML"@,
        InputFormat::Xml => "XML"@,
        InputFormat::Txt => "TXT"@,
        InputFormat::Csv => "CSV"@,
        InputFormat::Tsv => "TSV"@,
        InputFormat::Rtf => "RTF"@,
        InputFormat::Odt => "ODT"@,
        InputFormat::Json => "JSON"@,
        InputFormat::Zip => "ZIP"@,
        InputFormat::Image => "Image/OCR"@,
        InputFormat::Markdown => "Markdown"@,
        InputFormat::Unknown => "Unknown"@,
    }
}

/// Maturity of the support for each format.
pub open spec fn format_status(f: InputFormat) -> Seq<char> {
    match f {
        InputFormat::Rtf | InputFormat::Odt => "Beta"@,
        InputFormat::Unknown => "N/A"@,
        _ => "Production"@,
    }
}

/// The outputs offered for each format.
pub open spec fn format_output_options(f: InputFormat) -> Seq<char> {
    match f {
        InputFormat::Pdf => "Image per page, Markdown (per page/full), JSON"@,
        InputFormat::Docx => "Image per page, Markdown (per page/full), JSON"@,
        InputFormat::Xlsx => "Markdown tables, CSV, JSON"@,
        InputFormat::Pptx => "Image per slide, Markdown per slide"@,
        InputFormat::Html => "Markdown, JSON"@,
        InputFormat::Xml => "Markdown, JSON"@,
        InputFormat::Txt => "Markdown, JSON"@,
        InputFormat::Csv | InputFormat::Tsv => "Markdown tables, JSON"@,
        InputFormat::Rtf => "Markdown, JSON"@,
        InputFormat::Odt => "Markdown, JSON"@,
        InputFormat::Json => "Pretty-printed in fenced code blocks"@,
        InputFormat::Zip => "File listing, statistics, Markdown index, JSON"@,
        InputFormat::Image => "Markdown (OCR), JSON"@,
        InputFormat::Markdown => "Normalized Markdown"@,
        InputFormat::Unknown => ""@,
    }
}

impl InputFormat {
    /// Display name of the format ("PDF", "Image/OCR", ...).
    pub fn name(&self) -> (r: &'static str)
        ensures
            r@ == format_name(*self),
    {
        match self {
            InputFormat::Pdf => "PDF",
            InputFormat::Docx => "DOCX",
            InputFormat::Xlsx => "XLSX",
            InputFormat::Pptx => "PPTX",
            InputFormat::Html => "HTML",
            InputFormat::Xml => "XML",
            InputFormat::Txt => "TXT",
            InputFormat::Csv => "CSV",
            InputFormat::Tsv => "TSV",
            InputFormat::Rtf => "RTF",
            InputFormat::Odt => "ODT",
            InputFormat::Json => "JSON",
            InputFormat::Zip => "ZIP",
            InputFormat::Image => "Image/OCR",
            InputFormat::Markdown => "Markdown",
            InputFormat::Unknown => "Unknown",
        }
    }

    /// Get status string for the format.
    pub fn status(&self) -> (r: &'static str)
        ensures
            r@ == format_status(*self),
    {
        match self {
            InputFormat::Pdf | InputFormat::Docx | InputFormat::Xlsx | InputFormat::Pptx
            | InputFormat::Html | InputFormat::Xml | InputFormat::Txt | InputFormat::Csv
            | InputFormat::Tsv | InputFormat::Json | InputFormat::Zip | InputFormat::Image
            | InputFormat::Markdown => "Production",
            InputFormat::Rtf | InputFormat::Odt => "Beta",
            InputFormat::Unknown => "N/A",
        }
    }

    /// Get the output options for this format.
    pub fn output_options(&self) -> (r: &'static str)
        ensures
            r@ == format_output_options(*self),
    {
        match self {
            InputFormat::Pdf => "Image per page, Markdown (per page/full), JSON",
            InputFormat::Docx => "Image per page, Markdown (per page/full), JSON",
            InputFormat::Xlsx => "Markdown tables, CSV, JSON",
            InputFormat::Pptx => "Image per slide, Markdown per slide",
            InputFormat::Html => "Markdown, JSON",
            InputFormat::Xml => "Markdown, JSON",
            InputFormat::Txt => "Markdown, JSON",
            InputFormat::Csv | InputFormat::Tsv => "Markdown tables, JSON",
            InputFormat::Rtf => "Markdown, JSON",
            InputFormat::Odt => "Markdown, JSON",
            InputFormat::Json => "Pretty-printed in fenced code blocks",
            InputFormat::Zip => "File listing, statistics, Markdown index, JSON",
            InputFormat::Image => "Markdown (OCR), JSON",
            InputFormat::Markdown => "Normalized Markdown",
            InputFormat::Unknown => "",
        }
    }
}

/// Output format options.
#[derive(Debug, Clone, Copy, PartialEq, Eq, Structural)]
pub enum OutputFormat {
    Markdown { split_pages: bool, optimize_for_llm: bool },
    Html { standalone: bool, include_css: bool },
    Docx,
    Json { structured: bool, include_metadata: bool },
}

/// The default output: Markdown, whole document, optimised for LLM prompts.
pub open spec fn default_output_format() -> OutputFormat {
    OutputFormat::Markdown { split_pages: false, optimize_for_llm: true }
}

/// File extension (without the dot) of each output format.
pub open spec fn output_extension(f: OutputFormat) -> Seq<char> {
    match f {
        OutputFormat::Markdown { .. } => "md"@,
        OutputFormat::Html { .. } => "html"@,
        OutputFormat::Docx => "docx"@,
        OutputFormat::Json { .. } => "json"@,
    }
}

/// Display label of each output format.
pub open spec fn output_label(f: OutputFormat) -> Seq<char> {
    match f {
        OutputFormat::Markdown { .. } => "Markdown (.md)"@,
        OutputFormat::Html { .. } => "HTML (.html)"@,
        OutputFormat::Docx => "Word (.docx)"@,
        OutputFormat::Json { .. } => "JSON (.json)"@,
    }
}

impl Default for OutputFormat {
    fn default() -> (r: Self)
        ensures
            r == default_output_format(),
    {
        OutputFormat::Markdown { split_pages: false, optimize_for_llm: true }
    }
}

impl OutputFormat {
    /// Get the file extension for this output format (without the dot).
    pub fn extension(&self) -> (r: &'static str)
        ensures
            r@ == output_extension(*self),
    {
        match self {
            OutputFormat::Markdown { .. } => "md",
            OutputFormat::Html { .. } => "html",
            OutputFormat::Docx => "docx",
            OutputFormat::Json { .. } => "json",
        }
    }

    /// Display label ("Markdown (.md)", "Word (.docx)", ...).
    pub fn label(&self) -> (r: &'static str)
        ensures
            r@ == output_label(*self),
    {
        match self {
            OutputFormat::Markdown { .. } => "Markdown (.md)",
            OutputFormat::Html { .. } => "HTML (.html)",
            OutputFormat::Docx => "Word (.docx)",
            OutputFormat::Json { .. } => "JSON (.json)",
        }
    }
}

// ── Format detection ──────────────────────────────────────────────────────

/// The input format that a (lower-case) file extension names.
pub open spec fn format_of_extension(ext: Seq<char>) -> InputFormat {
    if ext == "pdf"@ {
        InputFormat::Pdf
    } else if ext == "docx"@ || ext == "doc"@ {
        InputFormat::Docx
    } else if ext == "xlsx"@ || ext == "xls"@ {
        InputFormat::Xlsx
    } else if ext == "pptx"@ || ext == "ppt"@ {
        InputFormat::Pptx
    } else if ext == "html"@ || ext == "htm"@ {
        InputFormat::Html
    } else if ext == "xml"@ {
        InputFormat::Xml
    } else if ext == "txt"@ || ext == "text"@ || ext == "log"@ {
        InputFormat::Txt
    } else if ext == "md"@ || ext == "markdown"@ {
        InputFormat::Markdown
    } else if ext == "csv"@ {
        InputFormat::Csv
    } else if ext == "tsv"@ {
        InputFormat::Tsv
    } else if ext == "rtf"@ {
        InputFormat::Rtf
    } else if ext == "odt"@ {
        InputFormat::Odt
    } else if ext == "json"@ || ext == "jsonl"@ {
        InputFormat::Json
    } else if ext == "zip"@ {
        InputFormat::Zip
    } else if ext == "jpg"@ || ext == "jpeg"@ || ext == "png"@ || ext == "gif"@ || ext == "bmp"@
        || ext == "tiff"@ || ext == "tif"@ || ext == "webp"@ {
        InputFormat::Image
    } else {
        InputFormat::Unknown
    }
}

/// The input format that a file extension names, after lower-casing it.
pub fn format_from_extension(ext: &str) -> (f: InputFormat)
    ensures
        f == format_of_extension(ext@),
{
    if str_eq(ext, "pdf") {
        InputFormat::Pdf
    } else if str_eq(ext, "docx") || str_eq(ext, "doc") {
        InputFormat::Docx
    } else if str_eq(ext, "xlsx") || str_eq(ext, "xls") {
        InputFormat::Xlsx
    } else if str_eq(ext, "pptx") || str_eq(ext, "ppt") {
        InputFormat::Pptx
    } else if str_eq(ext, "html") || str_eq(ext, "htm") {
        InputFormat::Html
    } else if str_eq(ext, "xml") {
        InputFormat::Xml
    } else if str_eq(ext, "txt") || str_eq(ext, "text") || str_eq(ext, "log") {
        InputFormat::Txt
    } else if str_eq(ext, "md") || str_eq(ext, "markdown") {
        InputFormat::Markdown
    } else if str_eq(ext, "csv") {
        InputFormat::Csv
    } else if str_eq(ext, "tsv") {
        InputFormat::Tsv
    } else if str_eq(ext, "rtf") {
        InputFormat::Rtf
    } else if str_eq(ext, "odt") {
        InputFormat::Odt
    } else if str_eq(ext, "json") || str_eq(ext, "jsonl") {
        InputFormat::Json
    } else if str_eq(ext, "zip") {
        InputFormat::Zip
    } else if str_eq(ext, "jpg") || str_eq(ext, "jpeg") || str_eq(ext, "png") || str_eq(ext, "gif")
        || str_eq(ext, "bmp") || str_eq(ext, "tiff") || str_eq(ext, "tif") || str_eq(ext, "webp") {
        InputFormat::Image
    } else {
        InputFormat::Unknown
    }
}

/// What `str::to_lowercase` gives for a string.
pub uninterp spec fn lowercase_of(s: Seq<char>) -> Seq<char>;

// ── Paths ─────────────────────────────────────────────────────────────────
//
// Paths are read as `std::path::Path` reads them where `/` is the only
// separator: trailing separators and trailing `.` components do not change
// the final name.

/// A path without its trailing separators and trailing `.` components.
pub open spec fn trim_path_tail(p: Seq<char>) -> Seq<char>
    decreases p.len(),
{
    if p.len() > 0 && p.last() == '/' {
        trim_path_tail(p.drop_last())
    } else if p.len() >= 2 && p.last() == '.' && p[p.len() - 2] == '/' {
        trim_path_tail(p.drop_last())
    } else {
        p
    }
}

/// The position just after the last `/` of `p` (0 when there is none).
pub open spec fn after_last_slash(p: Seq<char>) -> int
    decreases p.len(),
{
    if p.len() == 0 {
        0
    } else if p.last() == '/' {
        p.len() as int
    } else {
        after_last_slash(p.drop_last())
    }
}

/// The final name of a path (`Path::file_name`): absent when the path is
/// empty, a root, `.`, or ends in `..`.
pub open spec fn path_file_name_of(path: Seq<char>) -> Option<Seq<char>> {
    let t = trim_path_tail(path);
    let c = t.skip(after_last_slash(t));
    if c.len() == 0 || c == "."@ || c == ".."@ {
        None
    } else {
        Some(c)
    }
}

/// The position of the last `.` in `s`, or -1.
pub open spec fn last_dot(s: Seq<char>) -> int
    decreases s.len(),
{
    if s.len() == 0 {
        -1
    } else if s.last() == '.' {
        s.len() - 1
    } else {
        last_dot(s.drop_last())
    }
}

/// The extension of a path (`Path::extension`): what follows the last `.`
/// of the final name, unless that `.` is the name's first character.
pub open spec fn path_extension_of(path: Seq<char>) -> Option<Seq<char>> {
    match path_file_name_of(path) {
        Some(n) => if last_dot(n) > 0 { Some(n.skip(last_dot(n) + 1)) } else { None },
        None => None,
    }
}

/// The stem of a path (`Path::file_stem`): the final name without its
/// extension.
pub open spec fn path_file_stem_of(path: Seq<char>) -> Option<Seq<char>> {
    match path_file_name_of(path) {
        Some(n) => Some(if last_dot(n) > 0 { n.take(last_dot(n)) } else { n }),
        None => None,
    }
}

proof fn lemma_after_last_slash(t: Seq<char>, k: int)
    requires
        0 <= k <= t.len(),
        k == 0 || t[k - 1] == '/',
        forall|j: int| k <= j < t.len() ==> t[j] != '/',
    ensures
        after_last_slash(t) == k,
    decreases t.len(),
{
    if t.len() > k {
        lemma_after_last_slash(t.drop_last(), k);
    }
}

/// The bounds of the final name of a path, when it has one.
fn file_name_bounds(cs: &[char]) -> (r: Option<(usize, usize)>)
    ensures
        match r {
            Some(ab) => ab.0 <= ab.1 <= cs@.len() && path_file_name_of(cs@) == Some(cs@.subrange(ab.0 as int, ab.1 as int))
                && ab.0 == after_last_slash(trim_path_tail(cs@)),
            None => path_file_name_of(cs@) is None,
        },
{
    let mut end: usize = cs.len();
    assert(cs@.take(end as int) =~= cs@);
    while end > 0 && (cs[end - 1] == '/' || (end >= 2 && cs[end - 1] == '.' && cs[end - 2] == '/'))
        invariant
            end <= cs@.len(),
            trim_path_tail(cs@.take(end as int)) == trim_path_tail(cs@),
        decreases end,
    {
        assert(cs@.take(end as int).drop_last() =~= cs@.take(end - 1));
        end = end - 1;
    }
    let ghost t = cs@.take(end as int);
    assert(trim_path_tail(t) == t);
    let mut start: usize = end;
    while start > 0 && cs[start - 1] != '/'
        invariant
            start <= end <= cs@.len(),
            t == cs@.take(end as int),
            forall|j: int| start <= j < end ==> cs@[j] != '/',
        decreases start,
    {
        start = start - 1;
    }
    proof {
        lemma_after_last_slash(t, start as int);
    }
    let ghost c = t.skip(start as int);
    assert(c =~= cs@.subrange(start as int, end as int));
    proof {
        reveal_strlit(".");
        reveal_strlit("..");
    }
    assert(trim_path_tail(cs@) == t);
    assert(path_file_name_of(cs@) == (if c.len() == 0 || c == "."@ || c == ".."@ { None } else { Some(c) }));
    let n = end - start;
    if n == 0 {
        None
    } else if n == 1 && cs[start] == '.' {
        assert(c =~= "."@);
        None
    } else if n == 2 && cs[start] == '.' && cs[start + 1] == '.' {
        assert(c =~= ".."@);
        None
    } else {
        assert(c != "."@ && c != ".."@) by {
            if c == "."@ {
                assert(c[0] == "."@[0]);
            }
            if c == ".."@ {
                assert(c[0] == ".."@[0] && c[1] == ".."@[1]);
            }
        }
        Some((start, end))
    }
}

/// The final name of a path, when it has one.
pub(crate) fn path_file_name(path: &str) -> (r: Option<String>)
    ensures
        match r {
            Some(e) => path_file_name_of(path@) == Some(e@),
            None => path_file_name_of(path@) is None,
        },
{
    let cs = chars_of(path);
    match file_name_bounds(cs.as_slice()) {
        Some((a, b)) => {
            let name = slice_chars(cs.as_slice(), a, b);
            Some(string_from_chars(name.as_slice()))
        },
        None => None,
    }
}

/// A path with its extension replaced (`PathBuf::set_extension`): cut
/// right after the stem of its final name, then `.` and the extension
/// unless that is empty; unchanged when the path has no final name.
pub open spec fn path_with_extension(path: Seq<char>, ext: Seq<char>) -> Seq<char> {
    match path_file_stem_of(path) {
        Some(stem) => path.take(after_last_slash(trim_path_tail(path)) + stem.len())
            + if ext.len() > 0 { "."@ + ext } else { Seq::empty() },
        None => path,
    }
}

/// A path with its extension replaced, as `PathBuf::set_extension` does.
pub fn with_extension(path: &str, ext: &str) -> (r: String)
    ensures
        r@ == path_with_extension(path@, ext@),
{
    proof {
        reveal_strlit(".");
    }
    let cs = chars_of(path);
    match file_name_bounds(cs.as_slice()) {
        Some((a, b)) => {
            let name = slice_chars(cs.as_slice(), a, b);
            let stem_len = match last_dot_index(name.as_slice()) {
                Some(k) if k > 0 => k,
                _ => b - a,
            };
            let ghost stem = if last_dot(name@) > 0 { name@.take(last_dot(name@)) } else { name@ };
            assert(name@.take(stem_len as int) =~= stem);
            assert(path_file_name_of(path@) == Some(name@));
            assert(path_file_stem_of(path@) == Some(stem));
            assert(stem.len() == stem_len);
            let head = slice_chars(cs.as_slice(), 0, a + stem_len);
            assert(head@ =~= cs@.take(a + stem_len));
            let mut out = string_from_chars(head.as_slice());
            let ext_chars = chars_of(ext);
            if ext_chars.len() > 0 {
                out.append(".");
                out.append(ext);
                assert(out@ =~= head@ + ("."@ + ext@));
            } else {
                assert(out@ =~= head@ + Seq::<char>::empty());
            }
            assert(after_last_slash(trim_path_tail(path@)) == a);
            out
        },
        None => path.to_owned(),
    }
}

/// The position of the last `.` in a name, if any.
fn last_dot_index(cs: &[char]) -> (r: Option<usize>)
    ensures
        match r {
            Some(k) => k < cs@.len() && last_dot(cs@) == k as int,
            None => last_dot(cs@) == -1,
        },
{
    let mut i: usize = cs.len();
    assert(cs@.take(i as int) =~= cs@);
    while i > 0
        invariant
            i <= cs@.len(),
            last_dot(cs@) == last_dot(cs@.take(i as int)),
        decreases i,
    {
        assert(cs@.take(i as int).drop_last() =~= cs@.take(i - 1));
        if cs[i - 1] == '.' {
            return Some(i - 1);
        }
        i = i - 1;
    }
    None
}

/// The extension of a path, when it has one.
pub(crate) fn path_extension(path: &str) -> (r: Option<String>)
    ensures
        match r {
            Some(e) => path_extension_of(path@) == Some(e@),
            None => path_extension_of(path@) is None,
        },
{
    match path_file_name(path) {
        Some(name) => {
            let cs = chars_of(name.as_str());
            match last_dot_index(cs.as_slice()) {
                Some(k) if k > 0 => {
                    let len = cs.len();
                    assert(k < len);
                    let e = slice_chars(cs.as_slice(), k + 1, len);
                    assert(e@ =~= cs@.skip(k + 1));
                    Some(string_from_chars(e.as_slice()))
                },
                _ => None,
            }
        },
        None => None,
    }
}

/// The stem of a path, when it has a final name.
pub(crate) fn path_file_stem(path: &str) -> (r: Option<String>)
    ensures
        match r {
            Some(e) => path_file_stem_of(path@) == Some(e@),
            None => path_file_stem_of(path@) is None,
        },
{
    match path_file_name(path) {
        Some(name) => {
            let cs = chars_of(name.as_str());
            match last_dot_index(cs.as_slice()) {
                Some(k) if k > 0 => {
                    let e = slice_chars(cs.as_slice(), 0, k);
                    assert(e@ =~= cs@.take(k as int));
                    Some(string_from_chars(e.as_slice()))
                },
                _ => Some(name),
            }
        },
        None => None,
    }
}

/// `str::to_lowercase`: the Unicode lower-case form of the string.
#[verifier::external_body]
pub(crate) fn to_lowercase(s: &str) -> (r: String)
    ensures
        r@ == lowercase_of(s@),
{
    s.to_lowercase()
}

/// The lower-cased extension of a path, empty when it has none.
pub open spec fn lowered_extension(path: Seq<char>) -> Seq<char> {
    match path_extension_of(path) {
        Some(e) => lowercase_of(e),
        None => Seq::empty(),
    }
}

/// Detect the input format from a file path's extension.
pub fn detect_format(path: &str) -> (f: InputFormat)
    ensures
        f == format_of_extension(lowered_extension(path@)),
{
    match path_extension(path) {
        Some(e) => {
            let lower = to_lowercase(e.as_str());
            format_from_extension(lower.as_str())
        },
        None => {
            proof {
                reveal_strlit("");
                assert(""@ =~= Seq::<char>::empty());
            }
            format_from_extension("")
        },
    }
}

/// Check if a file format is supported for conversion.
pub fn is_supported(path: &str) -> (r: bool)
    ensures
        r == (format_of_extension(lowered_extension(path@)) != InputFormat::Unknown),
{
    detect_format(path) != InputFormat::Unknown
}

// ── Sizes ─────────────────────────────────────────────────────────────────

pub open spec fn kib() -> nat { 1024 }
pub open spec fn mib() -> nat { 1048576 }
pub open spec fn gib() -> nat { 1073741824 }

/// The spacing of `f64` values around `n`, looking from the scale `p` upward:
/// the smallest power-of-two multiple of `p` below which `n` has 53 bits.
pub open spec fn ulp_from(n: nat, p: nat) -> nat
    decreases n - p,
{
    if p == 0 {
        0
    } else if n < 9007199254740992 * p {
        p
    } else {
        ulp_from(n, 2 * p)
    }
}

/// `n / d` rounded to the nearest integer, ties to the even one.
pub open spec fn div_round_even(n: nat, d: nat) -> nat {
    let q = n / d;
    let r = n % d;
    if 2 * r < d {
        q
    } else if 2 * r > d {
        q + 1
    } else if q % 2 == 0 {
        q
    } else {
        q + 1
    }
}

/// The value of `n as f64`: `n` rounded to 53 significant bits, ties to even.
pub open spec fn f64_round(n: nat) -> nat {
    let u = ulp_from(n, 1);
    div_round_even(n, u) * u
}

/// Two decimal digits, zero-padded.
pub open spec fn two_digits(d: nat) -> Seq<char> {
    if d < 10 {
        seq!['0'] + decimal(d)
    } else {
        decimal(d)
    }
}

/// `f / unit` written with two decimals (`format!("{:.2}")`).
pub open spec fn fixed2(f: nat, unit: nat) -> Seq<char> {
    let q = div_round_even(f * 100, unit);
    decimal(q / 100) + seq!['.'] + two_digits(q % 100)
}

/// Human-readable size: bytes below 1 KiB, else KB, MB or GB with two decimals.
pub open spec fn format_size_spec(bytes: nat) -> Seq<char> {
    if bytes >= gib() {
        fixed2(f64_round(bytes), gib()) + " GB"@
    } else if bytes >= mib() {
        fixed2(bytes, mib()) + " MB"@
    } else if bytes >= kib() {
        fixed2(bytes, kib()) + " KB"@
    } else {
        decimal(bytes) + " B"@
    }
}

fn round_even_div(n: u128, d: u128) -> (r: u128)
    requires
        d > 0,
        n / d < u128::MAX,
    ensures
        r == div_round_even(n as nat, d as nat),
{
    let q = n / d;
    let r = n % d;
    if r < d - r {
        q
    } else if r > d - r {
        q + 1
    } else if q % 2 == 0 {
        q
    } else {
        q + 1
    }
}

/// The exact value of `bytes as f64`.
fn as_f64_value(bytes: u64) -> (f: u128)
    ensures
        f == f64_round(bytes as nat),
        f <= 0x2_0000_0000_0000_0000u128,
{
    let n = bytes as u128;
    let mut p: u128 = 1;
    while n >= 9007199254740992u128 * p
        invariant
            1 <= p <= 4096,
            n <= 0xFFFF_FFFF_FFFF_FFFFu128,
            ulp_from(n as nat, p as nat) == ulp_from(n as nat, 1),
            n >= 9007199254740992u128 * p ==> p <= 2048,
        decreases n - p,
    {
        p = p * 2;
    }
    assert(ulp_from(n as nat, p as nat) == p);
    let q = round_even_div(n, p);
    assert(q * p <= n + p) by (nonlinear_arith)
        requires
            q == div_round_even(n as nat, p as nat),
            p > 0,
    {
        assert(n / p * p <= n);
    }
    proof {
        assert(q <= n / p + 1);
        assert((n / p) * p <= n) by (nonlinear_arith) requires p > 0;
        assert(q * p <= (n / p + 1) * p) by (nonlinear_arith) requires q <= n / p + 1, p > 0;
    }
    q * p
}

fn push_fixed2(out: &mut String, f: u128, unit: u128)
    requires
        unit == 1024 || unit == 1048576 || unit == 1073741824,
        f <= 0x2_0000_0000_0000_0000u128,
    ensures
        final(out)@ == old(out)@ + fixed2(f as nat, unit as nat),
{
    let q = round_even_div(f * 100, unit);
    push_decimal(out, q / 100);
    push_char(out, '.');
    let frac = q % 100;
    if frac < 10 {
        push_char(out, '0');
    }
    push_decimal(out, frac);
    proof {
        if frac < 10 {
            assert(seq!['0'] + decimal(frac as nat) =~= seq!['0'].add(decimal(frac as nat)));
        }
    }
    assert(final(out)@ =~= old(out)@ + fixed2(f as nat, unit as nat));
}

/// Format file size in human-readable form.
pub fn format_size(bytes: u64) -> (s: String)
    ensures
        s@ == format_size_spec(bytes as nat),
{
    let mut out = String::new();
    if bytes >= 1073741824 {
        let f = as_f64_value(bytes);
        push_fixed2(&mut out, f, 1073741824);
        out.append(" GB");
    } else if bytes >= 1048576 {
        push_fixed2(&mut out, bytes as u128, 1048576);
        out.append(" MB");
    } else if bytes >= 1024 {
        push_fixed2(&mut out, bytes as u128, 1024);
        out.append(" KB");
    } else {
        push_decimal(&mut out, bytes as u128);
        out.append(" B");
    }
    out
}

// ── Word counting ─────────────────────────────────────────────────────────

/// The bytes that the byte-level word counter treats as whitespace:
/// space, tab, line feed, carriage return, vertical tab and form feed.
pub open spec fn is_ascii_ws_byte(b: u8) -> bool {
    b == 0x20u8 || b == 0x09u8 || b == 0x0Au8 || b == 0x0Du8 || b == 0x0Bu8 || b == 0x0Cu8
}

/// The same six characters, as `char`s.
pub open spec fn is_ascii_ws_char(c: char) -> bool {
    c == ' ' || c == '\t' || c == '\n' || c == '\r' || c == '\u{b}' || c == '\u{c}'
}

/// Number of positions in `b` where a non-whitespace byte follows a whitespace
/// byte (or the start, when `prev_ws` holds).
pub open spec fn byte_word_starts(b: Seq<u8>, prev_ws: bool) -> nat
    decreases b.len(),
{
    if b.len() == 0 {
        0
    } else {
        let ws = is_ascii_ws_byte(b[0]);
        (if !ws && prev_ws { 1nat } else { 0nat }) + byte_word_starts(b.drop_first(), ws)
    }
}

/// Number of words of `s` when words are the maximal runs of characters that
/// are not Unicode whitespace: what `str::split_whitespace().count()` gives.
pub open spec fn word_starts(s: Seq<char>, prev_ws: bool) -> nat
    decreases s.len(),
{
    if s.len() == 0 {
        0
    } else {
        let ws = is_ws(s[0]);
        (if !ws && prev_ws { 1nat } else { 0nat }) + word_starts(s.drop_first(), ws)
    }
}

/// Word starts where only the six ASCII whitespace characters separate words.
pub open spec fn ascii_word_starts(s: Seq<char>, prev_ws: bool) -> nat
    decreases s.len(),
{
    if s.len() == 0 {
        0
    } else {
        let ws = is_ascii_ws_char(s[0]);
        (if !ws && prev_ws { 1nat } else { 0nat }) + ascii_word_starts(s.drop_first(), ws)
    }
}

/// `str::split_whitespace().count()`.
pub open spec fn split_whitespace_count(s: Seq<char>) -> nat {
    word_starts(s, true)
}

/// Whether every whitespace character of `s` is ASCII whitespace (space,
/// tab, line feed, carriage return, vertical tab, form feed).
pub open spec fn only_ascii_whitespace(s: Seq<char>) -> bool {
    forall|i: int| 0 <= i < s.len() && is_ws(#[trigger] s[i]) ==> is_ascii_ws_char(s[i])
}

/// Whether every whitespace character is ASCII whitespace.
fn has_only_ascii_whitespace(cs: &[char]) -> (r: bool)
    ensures
        r == only_ascii_whitespace(cs@),
{
    let mut i: usize = 0;
    while i < cs.len()
        invariant
            i <= cs@.len(),
            forall|j: int| 0 <= j < i && is_ws(#[trigger] cs@[j]) ==> is_ascii_ws_char(cs@[j]),
        decreases cs@.len() - i,
    {
        let c = cs[i];
        if char_is_whitespace(c)
            && !(c == ' ' || c == '\t' || c == '\n' || c == '\r' || c == '\u{b}' || c == '\u{c}') {
            return false;
        }
        i = i + 1;
    }
    true
}

/// Count words in a text, as `str::split_whitespace().count()` does. Texts
/// of 256 bytes or more whose whitespace is all ASCII are counted byte by
/// byte (`count_word_boundaries`), which gives the same count there.
pub fn count_words(text: &str) -> (r: usize)
    ensures
        r == split_whitespace_count(text@),
{
    let bytes = text.as_bytes();
    if bytes.len() < 256 {
        return count_words_accurate(text);
    }
    let cs = chars_of(text);
    if has_only_ascii_whitespace(cs.as_slice()) {
        proof {
            law_count_words_matches_accurate(text@);
        }
        count_word_boundaries(bytes)
    } else {
        count_words_accurate(text)
    }
}

/// Count positions where a non-whitespace byte follows whitespace (or the start).
pub fn count_word_boundaries(bytes: &[u8]) -> (r: usize)
    ensures
        r == byte_word_starts(bytes@, true),
{
    let mut count: usize = 0;
    let mut prev_was_ws = true;
    let mut i: usize = 0;
    assert(bytes@.subrange(0, bytes@.len() as int) =~= bytes@);
    while i < bytes.len()
        invariant
            i <= bytes@.len(),
            count <= i,
            count + byte_word_starts(bytes@.subrange(i as int, bytes@.len() as int), prev_was_ws)
                == byte_word_starts(bytes@, true),
        decreases bytes@.len() - i,
    {
        let b = bytes[i];
        let is_ws = b == 0x20u8 || b == 0x09u8 || b == 0x0Au8 || b == 0x0Du8 || b == 0x0Bu8
            || b == 0x0Cu8;
        assert(bytes@.subrange(i as int, bytes@.len() as int).drop_first() =~= bytes@.subrange(
            i + 1,
            bytes@.len() as int,
        ));
        if !is_ws && prev_was_ws {
            count = count + 1;
        }
        prev_was_ws = is_ws;
        i = i + 1;
    }
    assert(bytes@.subrange(bytes@.len() as int, bytes@.len() as int) =~= Seq::<u8>::empty());
    count
}

/// Count words exactly as `str::split_whitespace().count()` does.
pub fn count_words_accurate(text: &str) -> (r: usize)
    ensures
        r == split_whitespace_count(text@),
{
    proof {
        lemma_encode_utf8_len(text@);
    }
    let bytes = text.as_bytes();
    let n = bytes.len();
    let mut count: usize = 0;
    let mut prev_ws = true;
    assert(text@.skip(0) =~= text@);
    for c in it: text.chars()
        invariant
            it.seq() == text@,
            text@.len() <= n,
            n == bytes@.len(),
            count <= it.index(),
            count + word_starts(text@.skip(it.index()), prev_ws) == word_starts(text@, true),
    {
        let ghost k = it.index();
        assert(text@.skip(k).drop_first() =~= text@.skip(k + 1));
        let ws = char_is_whitespace(c);
        if !ws && prev_ws {
            count = count + 1;
        }
        prev_ws = ws;
    }
    assert(text@.skip(text@.len() as int) =~= Seq::<char>::empty());
    count
}

// ── Agreement of the two word counts ──────────────────────────────────────

proof fn lemma_byte_starts_concat(a: Seq<u8>, b: Seq<u8>, prev: bool)
    ensures
        byte_word_starts(a + b, prev) == byte_word_starts(a, prev) + byte_word_starts(
            b,
            if a.len() == 0 { prev } else { is_ascii_ws_byte(a.last()) },
        ),
    decreases a.len(),
{
    if a.len() > 0 {
        assert((a + b).drop_first() =~= a.drop_first() + b);
        lemma_byte_starts_concat(a.drop_first(), b, is_ascii_ws_byte(a[0]));
        if a.len() > 1 {
            assert(a.drop_first().last() == a.last());
        }
    }
}

proof fn lemma_encode_char(c: char, prev: bool)
    ensures
        byte_word_starts(encode_scalar(c as u32), prev) == (if !is_ascii_ws_char(c) && prev {
            1nat
        } else {
            0nat
        }),
        encode_scalar(c as u32).len() > 0,
        is_ascii_ws_byte(encode_scalar(c as u32).last()) == is_ascii_ws_char(c),
{
    let v = c as u32;
    let e = encode_scalar(v);
    vstd::utf8::char_is_scalar(c);
    if v <= 0x7F {
        assert(v <= 0x7F ==> (v & 0x7F) == v) by (bit_vector);
        assert(e =~= seq![(v & 0x7F) as u8]);
        assert(e[0] == v as u8);
        assert(e.drop_first() =~= Seq::<u8>::empty());
        assert(v <= 0x7F ==> ((v as u8 == 0x20u8) <==> (v == 0x20u32))) by (bit_vector);
        assert(v <= 0x7F ==> ((v as u8 == 0x09u8) <==> (v == 0x09u32))) by (bit_vector);
        assert(v <= 0x7F ==> ((v as u8 == 0x0Au8) <==> (v == 0x0Au32))) by (bit_vector);
        assert(v <= 0x7F ==> ((v as u8 == 0x0Du8) <==> (v == 0x0Du32))) by (bit_vector);
        assert(v <= 0x7F ==> ((v as u8 == 0x0Bu8) <==> (v == 0x0Bu32))) by (bit_vector);
        assert(v <= 0x7F ==> ((v as u8 == 0x0Cu8) <==> (v == 0x0Cu32))) by (bit_vector);
        assert((c == ' ') <==> (v == 0x20u32));
        assert((c == '\t') <==> (v == 0x09u32));
        assert(is_ascii_ws_byte(e[0]) == is_ascii_ws_char(c));
        assert(byte_word_starts(e.drop_first(), is_ascii_ws_byte(e[0])) == 0);
        assert(byte_word_starts(e, prev) == (if !is_ascii_ws_char(c) && prev { 1nat } else { 0nat }));
    } else {
        assert(forall|x: u8| #![auto] (0xC0u8 | x) >= 0x80u8) by (bit_vector);
        assert(forall|x: u8| #![auto] (0xE0u8 | x) >= 0x80u8) by (bit_vector);
        assert(forall|x: u8| #![auto] (0xF0u8 | x) >= 0x80u8) by (bit_vector);
        assert(forall|x: u8| #![auto] (0x80u8 | x) >= 0x80u8) by (bit_vector);
        assert(forall|i: int| 0 <= i < e.len() ==> e[i] >= 0x80u8);
        assert(!is_ascii_ws_char(c));
        assert(e.len() >= 2);
        let t = e.drop_first();
        assert(byte_word_starts(e, prev) == (if prev { 1nat } else { 0nat }) + byte_word_starts(
            t,
            false,
        ));
        assert(forall|i: int| 0 <= i < t.len() ==> #[trigger] t[i] == e[i + 1]);
        lemma_no_ws_bytes(t, false);
        assert(e.last() == e[e.len() - 1]);
        assert(byte_word_starts(e, prev) == (if !is_ascii_ws_char(c) && prev { 1nat } else { 0nat }));
    }
}

/// Bytes that are all at least 0x80 hold no word start when the byte before
/// them was not whitespace.
proof fn lemma_no_ws_bytes(b: Seq<u8>, prev: bool)
    requires
        forall|i: int| 0 <= i < b.len() ==> b[i] >= 0x80u8,
        !prev,
    ensures
        byte_word_starts(b, prev) == 0,
    decreases b.len(),
{
    if b.len() > 0 {
        let t = b.drop_first();
        assert(forall|i: int| 0 <= i < t.len() ==> #[trigger] t[i] == b[i + 1]);
        lemma_no_ws_bytes(t, false);
    }
}

proof fn lemma_bytes_chars_agree(s: Seq<char>, prev: bool)
    ensures
        byte_word_starts(encode_utf8(s), prev) == ascii_word_starts(s, prev),
    decreases s.len(),
{
    if s.len() > 0 {
        let c = s[0];
        lemma_encode_char(c, prev);
        lemma_byte_starts_concat(encode_scalar(c as u32), encode_utf8(s.drop_first()), prev);
        lemma_bytes_chars_agree(s.drop_first(), is_ascii_ws_char(c));
    }
}

proof fn lemma_ascii_unicode_agree(s: Seq<char>, prev: bool)
    requires
        forall|i: int| 0 <= i < s.len() && is_ws(#[trigger] s[i]) ==> is_ascii_ws_char(s[i]),
    ensures
        ascii_word_starts(s, prev) == word_starts(s, prev),
    decreases s.len(),
{
    if s.len() > 0 {
        let c = s[0];
        assert(is_ascii_ws_char(c) ==> is_ws(c));
        assert(forall|i: int|
            0 <= i < s.drop_first().len() ==> #[trigger] s.drop_first()[i] == s[i + 1]);
        lemma_ascii_unicode_agree(s.drop_first(), is_ascii_ws_char(c));
    }
}

proof fn lemma_ascii_starts_bound(s: Seq<char>, prev: bool)
    ensures
        ascii_word_starts(s, prev) <= s.len(),
    decreases s.len(),
{
    if s.len() > 0 {
        lemma_ascii_starts_bound(s.drop_first(), is_ascii_ws_char(s[0]));
    }
}

proof fn lemma_word_starts_bound(s: Seq<char>, prev: bool)
    ensures
        word_starts(s, prev) <= s.len(),
    decreases s.len(),
{
    if s.len() > 0 {
        lemma_word_starts_bound(s.drop_first(), is_ws(s[0]));
    }
}

/// A text has at most as many words, by either count, as characters.
pub proof fn lemma_word_count_bound(s: Seq<char>)
    ensures
        split_whitespace_count(s) <= s.len(),
{
    lemma_word_starts_bound(s, true);
}

/// The byte-by-byte word count of a text's UTF-8 bytes (what
/// `count_word_boundaries` computes) equals the `split_whitespace` count on
/// every text whose whitespace is all ASCII whitespace. It differs where
/// other whitespace separates words: `"a\u{3000}b"` is one word byte by
/// byte and two by `split_whitespace`.
pub proof fn law_count_words_matches_accurate(s: Seq<char>)
    requires
        only_ascii_whitespace(s),
    ensures
        byte_word_starts(encode_utf8(s), true) == split_whitespace_count(s),
{
    lemma_bytes_chars_agree(s, true);
    lemma_ascii_unicode_agree(s, true);
}


/// The icon shown for a format in the file queue.
pub open spec fn format_icon_spec(f: InputFormat) -> Seq<char> {
    match f {
        InputFormat::Pdf => "\u{1f4d3}"@,
        InputFormat::Docx => "\u{1f4c4}"@,
        InputFormat::Xlsx => "\u{1f4ca}"@,
        InputFormat::Pptx => "\u{1f4ac}"@,
        InputFormat::Html => "\u{1f310}"@,
        InputFormat::Xml => "\u{1f4cb}"@,
        InputFormat::Image => "\u{1f5bc}"@,
        InputFormat::Zip => "\u{1f4e6}"@,
        InputFormat::Json => "\u{1f4bd}"@,
        InputFormat::Csv | InputFormat::Tsv => "\u{1f4c9}"@,
        _ => "\u{1f4c4}"@,
    }
}

/// The icon shown for a format in the file queue.
pub fn format_icon(format: &InputFormat) -> (r: &'static str)
    ensures
        r@ == format_icon_spec(*format),
{
    match format {
        InputFormat::Pdf => "\u{1f4d3}",
        InputFormat::Docx => "\u{1f4c4}",
        InputFormat::Xlsx => "\u{1f4ca}",
        InputFormat::Pptx => "\u{1f4ac}",
        InputFormat::Html => "\u{1f310}",
        InputFormat::Xml => "\u{1f4cb}",
        InputFormat::Image => "\u{1f5bc}",
        InputFormat::Zip => "\u{1f4e6}",
        InputFormat::Json => "\u{1f4bd}",
        InputFormat::Csv | InputFormat::Tsv => "\u{1f4c9}",
        _ => "\u{1f4c4}",
    }
}

} // verus!
