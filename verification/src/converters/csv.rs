//! CSV and TSV tables.

use vstd::prelude::*;
use crate::text::{push_decimal, decimal};
use crate::utils::{InputFormat, detect_format, format_of_extension, lowered_extension, path_file_stem, path_file_stem_of};
use super::{DocumentConverter, ConversionResult, ConvertError, DocumentMetadata};
use super::txt::is_full_result;
use super::zip_conv::{escape_pipe, escape_pipe_spec};
use crate::text::has_prefix;

verus! {

/// CSV/TSV to Markdown converter.
pub struct CsvConverter;

impl CsvConverter {
    pub fn new() -> (r: Self) {
        CsvConverter
    }
}

impl DocumentConverter for CsvConverter {
    open spec fn spec_format(&self) -> InputFormat {
        InputFormat::Csv
    }

    fn format(&self) -> (r: InputFormat) {
        InputFormat::Csv
    }
}

/// The header row that the `csv` reader (with the given delimiter and a
/// header row) reads from the bytes, or its error's message.
pub uninterp spec fn csv_header_row(data: Seq<u8>, delimiter: u8) -> Result<Seq<Seq<char>>, Seq<char>>;

/// The data rows after the header, read to the end, or the message of the
/// first error (a row that is not UTF-8 or whose length differs).
pub uninterp spec fn csv_data_rows(data: Seq<u8>, delimiter: u8) -> Result<Seq<Seq<Seq<char>>>, Seq<char>>;

/// The views of a row.
pub open spec fn row_view(r: Vec<String>) -> Seq<Seq<char>> {
    r@.map_values(|f: String| f@)
}

/// The views of a list of rows.
pub open spec fn rows_view(rs: Vec<Vec<String>>) -> Seq<Seq<Seq<char>>> {
    rs@.map_values(|r: Vec<String>| row_view(r))
}

/// `csv::Reader::headers`, with a reader built for the delimiter and a header row.
#[verifier::external_body]
fn csv_headers(data: &[u8], delimiter: u8) -> (r: Result<Vec<String>, String>)
    ensures
        match r {
            Ok(h) => csv_header_row(data@, delimiter) == Ok::<Seq<Seq<char>>, Seq<char>>(row_view(h)),
            Err(m) => csv_header_row(data@, delimiter) == Err::<Seq<Seq<char>>, Seq<char>>(m@),
        },
{
    let mut rdr = csv::ReaderBuilder::new().delimiter(delimiter).has_headers(true).from_reader(data);
    match rdr.headers() {
        Ok(h) => Ok(h.iter().map(|f| f.to_string()).collect()),
        Err(e) => Err(e.to_string()),
    }
}

/// `csv::Reader::records`, read to the end or to the first error, with a
/// reader built for the delimiter and a header row.
#[verifier::external_body]
fn csv_records(data: &[u8], delimiter: u8) -> (r: Result<Vec<Vec<String>>, String>)
    ensures
        match r {
            Ok(rows) => csv_data_rows(data@, delimiter) == Ok::<Seq<Seq<Seq<char>>>, Seq<char>>(rows_view(rows)),
            Err(m) => csv_data_rows(data@, delimiter) == Err::<Seq<Seq<Seq<char>>>, Seq<char>>(m@),
        },
{
    let mut rdr = csv::ReaderBuilder::new().delimiter(delimiter).has_headers(true).from_reader(data);
    rdr.records().map(|r| r.map(|rec| rec.iter().map(|f| f.to_string()).collect()).map_err(|e| e.to_string())).collect()
}

/// The header cells of the table: ` name |` each.
pub open spec fn header_cells(h: Seq<Seq<char>>) -> Seq<char>
    decreases h.len(),
{
    if h.len() == 0 {
        Seq::empty()
    } else {
        header_cells(h.drop_last()) + " "@ + h.last() + " |"@
    }
}

/// `n` separator cells.
pub open spec fn separator_cells(n: nat) -> Seq<char>
    decreases n,
{
    if n == 0 {
        Seq::empty()
    } else {
        separator_cells((n - 1) as nat) + " --- |"@
    }
}

/// The data cells of a row, with `|` escaped.
pub open spec fn data_cells(r: Seq<Seq<char>>) -> Seq<char>
    decreases r.len(),
{
    if r.len() == 0 {
        Seq::empty()
    } else {
        data_cells(r.drop_last()) + " "@ + escape_pipe_spec(r.last()) + " |"@
    }
}

/// Whether the last character of `a` is a backslash (`prev` when `a` is
/// empty).
pub open spec fn ends_in_backslash(a: Seq<char>, prev: bool) -> bool {
    if a.len() == 0 {
        prev
    } else {
        a.last() == '\\'
    }
}

/// The number of `|` in `s` that are not escaped by a backslash just before
/// them; `prev` tells whether the character before `s` is a backslash.
pub open spec fn open_bars_after(s: Seq<char>, prev: bool) -> nat
    decreases s.len(),
{
    if s.len() == 0 {
        0
    } else {
        (if s[0] == '|' && !prev {
            1nat
        } else {
            0nat
        }) + open_bars_after(s.drop_first(), s[0] == '\\')
    }
}

/// The number of unescaped `|` in a line: the cell borders of a table row.
pub open spec fn open_bars(s: Seq<char>) -> nat {
    open_bars_after(s, false)
}

proof fn lemma_open_bars_concat(a: Seq<char>, b: Seq<char>, prev: bool)
    ensures
        open_bars_after(a + b, prev) == open_bars_after(a, prev) + open_bars_after(b, ends_in_backslash(a, prev)),
    decreases a.len(),
{
    if a.len() == 0 {
        assert(a + b =~= b);
    } else {
        assert((a + b)[0] == a[0]);
        assert((a + b).drop_first() =~= a.drop_first() + b);
        lemma_open_bars_concat(a.drop_first(), b, a[0] == '\\');
        if a.len() > 1 {
            assert(a.drop_first().last() == a.last());
        }
    }
}

/// Escaping leaves no unescaped `|`.
proof fn lemma_escaped_has_no_open_bar(f: Seq<char>, prev: bool)
    ensures
        open_bars_after(escape_pipe_spec(f), prev) == 0,
    decreases f.len(),
{
    reveal_strlit("|");
    reveal_strlit("\\|");
    let bar = "|"@;
    let esc = "\\|"@;
    assert(bar.len() == 1);
    if f.len() > 0 {
        if has_prefix(f, bar) {
            let rest = escape_pipe_spec(f.skip(1));
            assert(escape_pipe_spec(f) == esc + rest);
            lemma_escaped_has_no_open_bar(f.skip(1), false);
            lemma_open_bars_concat(esc, rest, prev);
            assert(esc.drop_first() =~= seq!['|']);
            assert(seq!['|'].drop_first() =~= Seq::<char>::empty());
            assert(open_bars_after(Seq::<char>::empty(), false) == 0);
            assert(open_bars_after(seq!['|'], true) == 0);
            assert(open_bars_after(esc, prev) == 0);
            assert(!ends_in_backslash(esc, prev));
        } else {
            assert(f[0] != '|') by {
                if f[0] == '|' {
                    assert(f.take(1) =~= bar);
                }
            }
            let rest = escape_pipe_spec(f.drop_first());
            assert(escape_pipe_spec(f) == seq![f[0]] + rest);
            lemma_escaped_has_no_open_bar(f.drop_first(), f[0] == '\\');
            lemma_open_bars_concat(seq![f[0]], rest, prev);
            assert(seq![f[0]].drop_first() =~= Seq::<char>::empty());
            assert(open_bars_after(Seq::<char>::empty(), f[0] == '\\') == 0);
            assert(open_bars_after(seq![f[0]], prev) == 0);
        }
    }
}

/// Every field of a data row is its own cell: the data line of a row with
/// `k` fields has exactly `k + 1` unescaped `|` (its cell borders), whatever
/// `|` the fields hold, since every `|` inside a field, in any column, is
/// escaped as `\|`.
pub proof fn law_data_line_has_one_cell_per_field(r: Seq<Seq<char>>)
    ensures
        open_bars("|"@ + data_cells(r)) == r.len() + 1,
    decreases r.len(),
{
    reveal_strlit("|");
    reveal_strlit(" ");
    reveal_strlit(" |");
    let empty = Seq::<char>::empty();
    assert(seq!['|'].drop_first() =~= empty);
    assert(open_bars_after(empty, false) == 0);
    assert(open_bars_after(empty, true) == 0);
    assert(open_bars_after(seq!['|'], false) == 1);
    if r.len() == 0 {
        assert("|"@ + data_cells(r) =~= seq!['|']);
    } else {
        let init = r.drop_last();
        law_data_line_has_one_cell_per_field(init);
        let x = "|"@ + data_cells(init);
        let e = escape_pipe_spec(r.last());
        assert("|"@ + data_cells(r) =~= x + (" "@ + (e + " |"@)));
        lemma_open_bars_concat(x, " "@ + (e + " |"@), false);
        let q = ends_in_backslash(x, false);
        lemma_open_bars_concat(" "@, e + " |"@, q);
        assert((" "@).drop_first() =~= empty);
        assert(open_bars_after(empty, false) == 0);
        assert(open_bars_after(" "@, q) == 0);
        assert(!ends_in_backslash(" "@, q));
        lemma_open_bars_concat(e, " |"@, false);
        lemma_escaped_has_no_open_bar(r.last(), false);
        let q2 = ends_in_backslash(e, false);
        assert((" |"@).drop_first() =~= seq!['|']);
        assert(open_bars_after(" |"@, q2) == open_bars_after(seq!['|'], false));
        assert(open_bars_after(" |"@, q2) == 1);
    }
}

/// The cells of a row follow its fields in order: the cells of two runs of
/// fields are the first run's followed by the second's, and a single field
/// `f` is the cell ` f |` with each `|` of `f` escaped.
pub proof fn law_data_cells_follow_fields(a: Seq<Seq<char>>, b: Seq<Seq<char>>, f: Seq<char>)
    ensures
        data_cells(a + b) == data_cells(a) + data_cells(b),
        data_cells(seq![f]) == " "@ + escape_pipe_spec(f) + " |"@,
    decreases b.len(),
{
    let one = seq![f];
    assert(one.drop_last() =~= Seq::<Seq<char>>::empty());
    assert(data_cells(one.drop_last()) == Seq::<char>::empty());
    assert(one.last() == f);
    assert(Seq::<char>::empty() + " "@ + escape_pipe_spec(f) + " |"@ =~= " "@ + escape_pipe_spec(f) + " |"@);
    if b.len() == 0 {
        assert(a + b =~= a);
        assert(data_cells(a) + Seq::<char>::empty() =~= data_cells(a));
    } else {
        let init = b.drop_last();
        law_data_cells_follow_fields(a, init, f);
        assert((a + b).drop_last() =~= a + init);
        assert((a + b).last() == b.last());
        let c = " "@ + escape_pipe_spec(b.last()) + " |"@;
        assert(data_cells(a) + data_cells(init) + c =~= data_cells(a) + (data_cells(init) + c));
        assert(data_cells(a + b) == data_cells(a + init) + c);
    }
}

/// The data lines of the table.
pub open spec fn data_lines(rows: Seq<Seq<Seq<char>>>) -> Seq<char>
    decreases rows.len(),
{
    if rows.len() == 0 {
        Seq::empty()
    } else {
        data_lines(rows.drop_last()) + "|"@ + data_cells(rows.last()) + "\n"@
    }
}

/// The Markdown of a table with a non-empty header.
pub open spec fn table_markdown(title: Option<Seq<char>>, h: Seq<Seq<char>>, rows: Seq<Seq<Seq<char>>>) -> Seq<char> {
    (match title {
        Some(t) => "# "@ + t + "\n\n"@,
        None => Seq::empty(),
    }) + "|"@ + header_cells(h) + "\n"@ + "|"@ + separator_cells(h.len()) + "\n"@ + data_lines(rows) + "\n"@
        + "*"@ + decimal(rows.len()) + " rows total*\n"@
}

/// Appends ` cell |` for each header cell.
fn push_header_cells(md: &mut String, h: &Vec<String>)
    ensures
        final(md)@ == old(md)@ + header_cells(row_view(*h)),
{
    let ghost hv = row_view(*h);
    let ghost start = md@;
    let mut i: usize = 0;
    while i < h.len()
        invariant
            i <= h@.len(),
            hv == row_view(*h),
            md@ == start + header_cells(hv.take(i as int)),
        decreases h@.len() - i,
    {
        assert(hv.take(i + 1).drop_last() =~= hv.take(i as int));
        assert(hv.take(i + 1).last() == h@[i as int]@);
        md.append(" ");
        md.append(h[i].as_str());
        md.append(" |");
        i = i + 1;
    }
    assert(hv.take(h@.len() as int) =~= hv);
}

/// Appends ` cell |` for each cell of a row, with `|` escaped.
fn push_data_cells(md: &mut String, r: &Vec<String>)
    ensures
        final(md)@ == old(md)@ + data_cells(row_view(*r)),
{
    let ghost rv = row_view(*r);
    let ghost start = md@;
    let mut i: usize = 0;
    while i < r.len()
        invariant
            i <= r@.len(),
            rv == row_view(*r),
            md@ == start + data_cells(rv.take(i as int)),
        decreases r@.len() - i,
    {
        assert(rv.take(i + 1).drop_last() =~= rv.take(i as int));
        assert(rv.take(i + 1).last() == r@[i as int]@);
        md.append(" ");
        let escaped = escape_pipe(r[i].as_str());
        md.append(escaped.as_str());
        md.append(" |");
        i = i + 1;
    }
    assert(rv.take(r@.len() as int) =~= rv);
}

/// The Markdown table of a header and its rows, under the title.
pub fn csv_table_markdown(title: &Option<String>, headers: &Vec<String>, rows: &Vec<Vec<String>>) -> (r: String)
    ensures
        r@ == table_markdown(
            match title {
                Some(t) => Some(t@),
                None => None,
            },
            row_view(*headers),
            rows_view(*rows),
        ),
{
    let mut md = String::new();
    match title {
        Some(t) => {
            md.append("# ");
            md.append(t.as_str());
            md.append("\n\n");
        },
        None => {},
    }
    md.append("|");
    push_header_cells(&mut md, headers);
    md.append("\n");
    md.append("|");
    let ghost before_sep = md@;
    let mut k: usize = 0;
    while k < headers.len()
        invariant
            k <= headers@.len(),
            md@ == before_sep + separator_cells(k as nat),
        decreases headers@.len() - k,
    {
        md.append(" --- |");
        k = k + 1;
    }
    assert(row_view(*headers).len() == headers@.len());
    md.append("\n");
    let ghost rv = rows_view(*rows);
    let ghost before_rows = md@;
    let mut i: usize = 0;
    while i < rows.len()
        invariant
            i <= rows@.len(),
            rv == rows_view(*rows),
            md@ == before_rows + data_lines(rv.take(i as int)),
        decreases rows@.len() - i,
    {
        assert(rv.take(i + 1).drop_last() =~= rv.take(i as int));
        assert(rv.take(i + 1).last() == row_view(rows@[i as int]));
        md.append("|");
        push_data_cells(&mut md, &rows[i]);
        md.append("\n");
        i = i + 1;
    }
    assert(rv.take(rows@.len() as int) =~= rv);
    md.append("\n");
    md.append("*");
    push_decimal(&mut md, rows.len() as u128);
    md.append(" rows total*\n");
    md
}

/// The delimiter of a table file: tab for TSV, comma otherwise.
pub open spec fn table_delimiter(format: InputFormat) -> u8 {
    if format == InputFormat::Tsv { 9u8 } else { 44u8 }
}

/// What converting a CSV or TSV file's bytes gives.
pub open spec fn csv_outcome(r: Result<ConversionResult, ConvertError>, path: Seq<char>, data: Seq<u8>, file_size: u64) -> bool {
    let format = format_of_extension(lowered_extension(path));
    let d = table_delimiter(format);
    let title = path_file_stem_of(path);
    match csv_header_row(data, d) {
        Err(m) => r matches Err(ConvertError::Csv(msg)) && msg@ == m,
        Ok(h) => if h.len() == 0 {
            r matches Ok(res) && is_full_result(res, "*Empty CSV file*\n"@, title, 1, format, path, file_size)
        } else {
            match csv_data_rows(data, d) {
                Err(m) => r matches Err(ConvertError::Csv(msg)) && msg@ == m,
                Ok(rows) => r matches Ok(res) && is_full_result(res, table_markdown(title, h, rows), title, 1, format, path, file_size),
            }
        },
    }
}

/// Convert a CSV or TSV file, given its bytes.
pub fn extract_csv_to_markdown(path: &str, data: &[u8], file_size: u64) -> (r: Result<ConversionResult, ConvertError>)
    ensures
        csv_outcome(r, path@, data@, file_size),
{
    let format = detect_format(path);
    let delimiter: u8 = if format == InputFormat::Tsv { 9u8 } else { 44u8 };
    let title = path_file_stem(path);
    let headers = match csv_headers(data, delimiter) {
        Ok(h) => h,
        Err(m) => return Err(ConvertError::Csv(m)),
    };
    let markdown = if headers.len() == 0 {
        "*Empty CSV file*\n".to_owned()
    } else {
        let rows = match csv_records(data, delimiter) {
            Ok(r) => r,
            Err(m) => return Err(ConvertError::Csv(m)),
        };
        csv_table_markdown(&title, &headers, &rows)
    };
    let metadata = DocumentMetadata {
        title,
        author: None,
        page_count: 1,
        word_count: 0,
        source_format: format,
        source_path: path.to_owned(),
        file_size_bytes: file_size,
    };
    Ok(ConversionResult::from_markdown(markdown, metadata))
}

} // verus!
