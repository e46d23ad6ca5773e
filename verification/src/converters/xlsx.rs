//! Excel (XLSX) workbooks.
//!
//! Each sheet becomes a `##` section with a Markdown table: row 1 is the
//! header, the later rows that hold any value follow. Cells are trimmed and
//! blank cells are left out.

use vstd::prelude::*;
use std::collections::HashMap;
use crate::text::{trim, trim_str, push_chars};
use crate::utils::InputFormat;
use super::{DocumentConverter, ConversionResult, ConvertError, DocumentMetadata};
use super::txt::is_full_result;

verus! {

broadcast use vstd::std_specs::hash::group_hash_axioms;

/// XLSX converter.
pub struct XlsxConverter;

impl XlsxConverter {
    pub fn new() -> (r: Self) {
        XlsxConverter
    }
}

impl DocumentConverter for XlsxConverter {
    open spec fn spec_format(&self) -> InputFormat {
        InputFormat::Xlsx
    }

    fn format(&self) -> (r: InputFormat) {
        InputFormat::Xlsx
    }
}

/// What the converter reads of a sheet: its name, the highest column and
/// row that the sheet reports, and its cells in row-then-column order as
/// (column, row, value shown).
pub struct SheetData {
    pub name: String,
    pub highest: (u32, u32),
    pub cells: Vec<(u32, u32, String)>,
}

/// The views of a sheet's cells.
pub open spec fn cell_views(cells: Seq<(u32, u32, String)>) -> Seq<(u32, u32, Seq<char>)> {
    cells.map_values(|c: (u32, u32, String)| (c.0, c.1, c.2@))
}

/// The views of a workbook's sheets.
pub open spec fn sheet_views(v: Seq<SheetData>) -> Seq<(Seq<char>, (u32, u32), Seq<(u32, u32, Seq<char>)>)> {
    v.map_values(|s: SheetData| (s.name@, s.highest, cell_views(s.cells@)))
}

/// The view of what the workbook reader gave: the sheets, each as (name,
/// highest column and row, cells in row-then-column order with their shown
/// values), or the reader's error message.
pub open spec fn workbook_view(w: Result<Vec<SheetData>, String>) -> Result<Seq<(Seq<char>, (u32, u32), Seq<(u32, u32, Seq<char>)>)>, Seq<char>> {
    match w {
        Ok(v) => Ok(sheet_views(v@)),
        Err(m) => Err(m@),
    }
}

// ── The grid ──────────────────────────────────────────────────────────────

/// The trimmed value of the last non-blank cell at (column, row), if any.
pub open spec fn grid_cell(cells: Seq<(u32, u32, Seq<char>)>, c: u32, r: u32) -> Option<Seq<char>>
    decreases cells.len(),
{
    if cells.len() == 0 {
        None
    } else if cells.last().0 == c && cells.last().1 == r && trim(cells.last().2).len() > 0 {
        Some(trim(cells.last().2))
    } else {
        grid_cell(cells.drop_last(), c, r)
    }
}

/// The highest column and row among the non-blank cells (0 when none).
pub open spec fn grid_extent(cells: Seq<(u32, u32, Seq<char>)>) -> (u32, u32)
    decreases cells.len(),
{
    if cells.len() == 0 {
        (0, 0)
    } else {
        let e = grid_extent(cells.drop_last());
        let x = cells.last();
        if trim(x.2).len() > 0 {
            (if x.0 > e.0 { x.0 } else { e.0 }, if x.1 > e.1 { x.1 } else { e.1 })
        } else {
            e
        }
    }
}

/// Whether any cell is non-blank.
pub open spec fn grid_nonempty(cells: Seq<(u32, u32, Seq<char>)>) -> bool {
    exists|i: int| 0 <= i < cells.len() && trim(#[trigger] cells[i].2).len() > 0
}

/// The text of a table cell: the grid's value, or nothing.
pub open spec fn cell_text(cells: Seq<(u32, u32, Seq<char>)>, c: u32, r: u32) -> Seq<char> {
    match grid_cell(cells, c, r) {
        Some(v) => v,
        None => Seq::empty(),
    }
}

/// The cells ` value |` of row `r`, for columns 1 to `n`.
pub open spec fn row_cells(cells: Seq<(u32, u32, Seq<char>)>, r: u32, n: nat) -> Seq<char>
    decreases n,
{
    if n == 0 {
        Seq::empty()
    } else {
        row_cells(cells, r, (n - 1) as nat) + " "@ + cell_text(cells, n as u32, r) + " |"@
    }
}

/// Whether row `r` has a value in one of the columns 1 to `n`.
pub open spec fn row_has_data(cells: Seq<(u32, u32, Seq<char>)>, r: u32, n: nat) -> bool {
    exists|c: u32| 1 <= c <= n && #[trigger] grid_cell(cells, c, r) is Some
}

/// `n` separator cells.
pub open spec fn separators(n: nat) -> Seq<char>
    decreases n,
{
    if n == 0 {
        Seq::empty()
    } else {
        separators((n - 1) as nat) + " --- |"@
    }
}

/// The data lines for rows 2 to `r` that hold a value.
pub open spec fn data_lines(cells: Seq<(u32, u32, Seq<char>)>, cols: nat, r: nat) -> Seq<char>
    decreases r,
{
    if r < 2 {
        Seq::empty()
    } else {
        data_lines(cells, cols, (r - 1) as nat) + if row_has_data(cells, r as u32, cols) {
            "|"@ + row_cells(cells, r as u32, cols) + "\n"@
        } else {
            Seq::empty()
        }
    }
}

/// The Markdown of one sheet.
pub open spec fn sheet_markdown(name: Seq<char>, highest: (u32, u32), cells: Seq<(u32, u32, Seq<char>)>) -> Seq<char> {
    let head = "## "@ + name + "\n\n"@;
    if highest.1 == 0 || highest.0 == 0 || !grid_nonempty(cells) {
        head + "*Empty sheet*\n\n"@
    } else {
        let ext = grid_extent(cells);
        if ext.0 > 0 {
            head + "|"@ + row_cells(cells, 1, ext.0 as nat) + "\n"@ + "|"@ + separators(ext.0 as nat) + "\n"@
                + data_lines(cells, ext.0 as nat, ext.1 as nat) + "\n"@
        } else {
            head
        }
    }
}

/// The Markdown of a workbook: its sheets in order.
pub open spec fn workbook_markdown(sheets: Seq<(Seq<char>, (u32, u32), Seq<(u32, u32, Seq<char>)>)>) -> Seq<char>
    decreases sheets.len(),
{
    if sheets.len() == 0 {
        Seq::empty()
    } else {
        workbook_markdown(sheets.drop_last()) + sheet_markdown(sheets.last().0, sheets.last().1, sheets.last().2)
    }
}

/// The Markdown of a workbook is that of its sheets one after the other, in
/// workbook order: the Markdown of two runs of sheets is the first run's
/// followed by the second's.
pub proof fn law_workbook_joins_runs_of_sheets(
    a: Seq<(Seq<char>, (u32, u32), Seq<(u32, u32, Seq<char>)>)>,
    b: Seq<(Seq<char>, (u32, u32), Seq<(u32, u32, Seq<char>)>)>,
)
    ensures
        workbook_markdown(a + b) == workbook_markdown(a) + workbook_markdown(b),
    decreases b.len(),
{
    if b.len() == 0 {
        assert(a + b =~= a);
        assert(workbook_markdown(a) + Seq::<char>::empty() =~= workbook_markdown(a));
    } else {
        let init = b.drop_last();
        law_workbook_joins_runs_of_sheets(a, init);
        assert((a + b).drop_last() =~= a + init);
        assert((a + b).last() == b.last());
        let l = sheet_markdown(b.last().0, b.last().1, b.last().2);
        assert(workbook_markdown(a) + workbook_markdown(init) + l =~= workbook_markdown(a) + (workbook_markdown(init) + l));
    }
}

/// Every sheet has its own section, in its place: the workbook's Markdown is
/// that of the sheets before it, then the sheet's section, which starts
/// with `## ` and the sheet's name, then that of the sheets after it.
pub proof fn law_every_sheet_has_its_section(
    sheets: Seq<(Seq<char>, (u32, u32), Seq<(u32, u32, Seq<char>)>)>,
    i: int,
)
    requires
        0 <= i < sheets.len(),
    ensures
        workbook_markdown(sheets) == workbook_markdown(sheets.take(i)) + sheet_markdown(
            sheets[i].0,
            sheets[i].1,
            sheets[i].2,
        ) + workbook_markdown(sheets.skip(i + 1)),
        sheet_markdown(sheets[i].0, sheets[i].1, sheets[i].2).take(sheets[i].0.len() + 5int) == "## "@ + sheets[i].0
            + "\n\n"@,
{
    let s = sheets[i];
    let one = seq![s];
    assert(sheets =~= sheets.take(i) + one + sheets.skip(i + 1));
    law_workbook_joins_runs_of_sheets(sheets.take(i) + one, sheets.skip(i + 1));
    law_workbook_joins_runs_of_sheets(sheets.take(i), one);
    assert(one.drop_last() =~= Seq::<(Seq<char>, (u32, u32), Seq<(u32, u32, Seq<char>)>)>::empty());
    assert(workbook_markdown(one.drop_last()) == Seq::<char>::empty());
    assert(one.last() == s);
    assert(Seq::<char>::empty() + sheet_markdown(s.0, s.1, s.2) =~= sheet_markdown(s.0, s.1, s.2));
    assert(workbook_markdown(one) == sheet_markdown(s.0, s.1, s.2));
    reveal_strlit("## ");
    reveal_strlit("\n\n");
    let head = "## "@ + s.0 + "\n\n"@;
    assert(head.len() == s.0.len() + 5);
    let md = sheet_markdown(s.0, s.1, s.2);
    assert(md.take(head.len() as int) =~= head);
}

/// The grid key of a cell.
pub open spec fn grid_key(c: u32, r: u32) -> u64 {
    (c as u64 * 4294967296 + r as u64) as u64
}

proof fn lemma_grid_key_injective(c1: u32, r1: u32, c2: u32, r2: u32)
    ensures
        grid_key(c1, r1) == grid_key(c2, r2) ==> c1 == c2 && r1 == r2,
{
    assert((c1 as u64 * 4294967296 + r1 as u64) as u64 == c1 as int * 4294967296 + r1 as int) by (nonlinear_arith);
    assert((c2 as u64 * 4294967296 + r2 as u64) as u64 == c2 as int * 4294967296 + r2 as int) by (nonlinear_arith);
    if c1 as int * 4294967296 + r1 as int == c2 as int * 4294967296 + r2 as int {
        assert(c1 == c2 && r1 == r2) by (nonlinear_arith)
            requires
                c1 as int * 4294967296 + r1 as int == c2 as int * 4294967296 + r2 as int,
                0 <= r1 < 4294967296,
                0 <= r2 < 4294967296,
        ;
    }
}

/// The grid key of a cell.
fn key_of(c: u32, r: u32) -> (k: u64)
    ensures
        k == grid_key(c, r),
{
    assert(c as u64 * 4294967296 + r as u64 <= u64::MAX) by (nonlinear_arith)
        requires
            c <= u32::MAX,
            r <= u32::MAX,
    ;
    (c as u64) * 4294967296u64 + (r as u64)
}

/// Whether the map holds exactly the grid of the cells.
pub open spec fn holds_grid(m: Map<u64, String>, cells: Seq<(u32, u32, Seq<char>)>) -> bool {
    forall|c: u32, r: u32|
        #![trigger grid_cell(cells, c, r)]
        match grid_cell(cells, c, r) {
            Some(v) => m.contains_key(grid_key(c, r)) && m[grid_key(c, r)]@ == v,
            None => !m.contains_key(grid_key(c, r)),
        }
}

/// The grid of the non-blank cells, and their extent.
fn build_grid(cells: &Vec<(u32, u32, String)>) -> (r: (HashMap<u64, String>, u32, u32, bool))
    ensures
        holds_grid(r.0@, cell_views(cells@)),
        (r.1, r.2) == grid_extent(cell_views(cells@)),
        r.3 == grid_nonempty(cell_views(cells@)),
{
    let ghost cv = cell_views(cells@);
    let mut m: HashMap<u64, String> = HashMap::new();
    let mut max_c: u32 = 0;
    let mut max_r: u32 = 0;
    let mut any = false;
    let mut i: usize = 0;
    while i < cells.len()
        invariant
            i <= cells@.len(),
            cv == cell_views(cells@),
            holds_grid(m@, cv.take(i as int)),
            (max_c, max_r) == grid_extent(cv.take(i as int)),
            any == grid_nonempty(cv.take(i as int)),
        decreases cells@.len() - i,
    {
        let ghost pre = cv.take(i as int);
        let ghost post = cv.take(i + 1);
        assert(post.drop_last() =~= pre);
        assert(post.last() == cv[i as int]);
        assert(cv[i as int] == (cells@[i as int].0, cells@[i as int].1, cells@[i as int].2@));
        let c = cells[i].0;
        let r = cells[i].1;
        let t = trim_str(cells[i].2.as_str());
        if t.len() > 0 {
            let mut value = String::new();
            push_chars(&mut value, t.as_slice());
            let k = key_of(c, r);
            let ghost old_m = m@;
            m.insert(k, value);
            assert forall|c2: u32, r2: u32| #![trigger grid_cell(post, c2, r2)] match grid_cell(post, c2, r2) {
                Some(v) => m@.contains_key(grid_key(c2, r2)) && m@[grid_key(c2, r2)]@ == v,
                None => !m@.contains_key(grid_key(c2, r2)),
            } by {
                lemma_grid_key_injective(c, r, c2, r2);
                if c2 == c && r2 == r {
                } else {
                    assert(grid_cell(post, c2, r2) == grid_cell(pre, c2, r2));
                    assert(grid_cell(pre, c2, r2) == grid_cell(pre, c2, r2));
                }
            }
            if c > max_c {
                max_c = c;
            }
            if r > max_r {
                max_r = r;
            }
            any = true;
            assert(post[i as int] == cv[i as int]);
        } else {
            assert forall|c2: u32, r2: u32| #![trigger grid_cell(post, c2, r2)] match grid_cell(post, c2, r2) {
                Some(v) => m@.contains_key(grid_key(c2, r2)) && m@[grid_key(c2, r2)]@ == v,
                None => !m@.contains_key(grid_key(c2, r2)),
            } by {
                assert(grid_cell(post, c2, r2) == grid_cell(pre, c2, r2));
                assert(grid_cell(pre, c2, r2) == grid_cell(pre, c2, r2));
            }
            assert(grid_nonempty(post) == grid_nonempty(pre)) by {
                if grid_nonempty(post) {
                    let j = choose|j: int| 0 <= j < post.len() && trim(#[trigger] post[j].2).len() > 0;
                    assert(j < i);
                    assert(pre[j] == post[j]);
                }
                if grid_nonempty(pre) {
                    let j = choose|j: int| 0 <= j < pre.len() && trim(#[trigger] pre[j].2).len() > 0;
                    assert(pre[j] == post[j]);
                }
            }
        }
        i = i + 1;
    }
    assert(cv.take(cells@.len() as int) =~= cv);
    (m, max_c, max_r, any)
}

// ── The table ─────────────────────────────────────────────────────────────

/// The text of a table cell.
fn grid_text(m: &HashMap<u64, String>, c: u32, r: u32, Ghost(cells): Ghost<Seq<(u32, u32, Seq<char>)>>) -> (s: String)
    requires
        holds_grid(m@, cells),
    ensures
        s@ == cell_text(cells, c, r),
{
    let k = key_of(c, r);
    assert(match grid_cell(cells, c, r) {
        Some(v) => m@.contains_key(grid_key(c, r)) && m@[grid_key(c, r)]@ == v,
        None => !m@.contains_key(grid_key(c, r)),
    });
    match m.get(&k) {
        Some(v) => v.clone(),
        None => String::new(),
    }
}

/// Whether row `r` has a value in one of the columns 1 to `n`.
fn row_nonblank(m: &HashMap<u64, String>, r: u32, n: u32, Ghost(cells): Ghost<Seq<(u32, u32, Seq<char>)>>) -> (b: bool)
    requires
        holds_grid(m@, cells),
    ensures
        b == row_has_data(cells, r, n as nat),
{
    let mut c: u32 = 0;
    while c < n
        invariant
            c <= n,
            holds_grid(m@, cells),
            forall|c2: u32| 1 <= c2 <= c ==> #[trigger] grid_cell(cells, c2, r) is None,
        decreases n - c,
    {
        c = c + 1;
        let k = key_of(c, r);
        assert(match grid_cell(cells, c, r) {
            Some(v) => m@.contains_key(grid_key(c, r)) && m@[grid_key(c, r)]@ == v,
            None => !m@.contains_key(grid_key(c, r)),
        });
        if m.contains_key(&k) {
            assert(grid_cell(cells, c, r) is Some);
            return true;
        }
    }
    false
}

/// Appends the cells ` value |` of row `r`, for columns 1 to `n`.
fn push_row(md: &mut String, m: &HashMap<u64, String>, r: u32, n: u32, Ghost(cells): Ghost<Seq<(u32, u32, Seq<char>)>>)
    requires
        holds_grid(m@, cells),
    ensures
        final(md)@ == old(md)@ + row_cells(cells, r, n as nat),
{
    let ghost start = md@;
    let mut c: u32 = 0;
    while c < n
        invariant
            c <= n,
            holds_grid(m@, cells),
            md@ == start + row_cells(cells, r, c as nat),
        decreases n - c,
    {
        c = c + 1;
        md.append(" ");
        let v = grid_text(m, c, r, Ghost(cells));
        md.append(v.as_str());
        md.append(" |");
    }
}

/// The Markdown of one sheet.
pub fn sheet_to_markdown(sheet: &SheetData) -> (r: String)
    ensures
        r@ == sheet_markdown(sheet.name@, sheet.highest, cell_views(sheet.cells@)),
{
    let ghost cells = cell_views(sheet.cells@);
    let mut md = "## ".to_owned();
    md.append(sheet.name.as_str());
    md.append("\n\n");
    let (max_col, max_row) = sheet.highest;
    if max_row == 0 || max_col == 0 {
        md.append("*Empty sheet*\n\n");
        return md;
    }
    let (m, cols, rows, any) = build_grid(&sheet.cells);
    if !any {
        md.append("*Empty sheet*\n\n");
        return md;
    }
    if cols > 0 {
        md.append("|");
        push_row(&mut md, &m, 1, cols, Ghost(cells));
        md.append("\n");
        md.append("|");
        let ghost before_sep = md@;
        let mut k: u32 = 0;
        while k < cols
            invariant
                k <= cols,
                md@ == before_sep + separators(k as nat),
            decreases cols - k,
        {
            md.append(" --- |");
            k = k + 1;
        }
        md.append("\n");
        let ghost before_rows = md@;
        let mut r: u32 = 1;
        while r < rows
            invariant
                1 <= r,
                r == 1 || r <= rows,
                holds_grid(m@, cells),
                md@ == before_rows + data_lines(cells, cols as nat, r as nat),
            decreases rows - r,
        {
            r = r + 1;
            if row_nonblank(&m, r, cols, Ghost(cells)) {
                md.append("|");
                push_row(&mut md, &m, r, cols, Ghost(cells));
                md.append("\n");
            }
        }
        if rows < 2 {
            assert(data_lines(cells, cols as nat, rows as nat) =~= Seq::<char>::empty());
            assert(data_lines(cells, cols as nat, 1) =~= Seq::<char>::empty());
        }
        md.append("\n");
    }
    md
}

/// The Markdown of a workbook's sheets.
pub fn workbook_to_markdown(sheets: &Vec<SheetData>) -> (r: String)
    ensures
        r@ == workbook_markdown(sheet_views(sheets@)),
{
    let ghost sv = sheet_views(sheets@);
    let mut md = String::new();
    let mut i: usize = 0;
    while i < sheets.len()
        invariant
            i <= sheets@.len(),
            sv == sheet_views(sheets@),
            md@ == workbook_markdown(sv.take(i as int)),
        decreases sheets@.len() - i,
    {
        assert(sv.take(i + 1).drop_last() =~= sv.take(i as int));
        assert(sv.take(i + 1).last() == (sheets@[i as int].name@, sheets@[i as int].highest, cell_views(sheets@[i as int].cells@)));
        let s = sheet_to_markdown(&sheets[i]);
        md.append(s.as_str());
        i = i + 1;
    }
    assert(sv.take(sheets@.len() as int) =~= sv);
    md
}

/// What converting an XLSX file gives, from what its reader gave: one section per sheet, the
/// sheet count as page count, and no title.
pub open spec fn xlsx_outcome(
    r: Result<ConversionResult, ConvertError>,
    path: Seq<char>,
    workbook: Result<Seq<(Seq<char>, (u32, u32), Seq<(u32, u32, Seq<char>)>)>, Seq<char>>,
    file_size: u64,
) -> bool {
    match workbook {
        Err(m) => r matches Err(ConvertError::Xlsx(msg)) && msg@ == m,
        Ok(sheets) => r matches Ok(res) && is_full_result(res, workbook_markdown(sheets), None, sheets.len(), InputFormat::Xlsx, path, file_size),
    }
}

/// Convert an XLSX file, given what the workbook reader read from it: its
/// sheets (name, highest column and row, sorted cells with their shown
/// values), or the reader's error message.
pub fn extract_xlsx_to_markdown(path: &str, workbook: Result<Vec<SheetData>, String>, file_size: u64) -> (r: Result<ConversionResult, ConvertError>)
    ensures
        xlsx_outcome(r, path@, workbook_view(workbook), file_size),
{
    let sheets = match workbook {
        Ok(s) => s,
        Err(m) => return Err(ConvertError::Xlsx(m)),
    };
    let markdown = workbook_to_markdown(&sheets);
    let metadata = DocumentMetadata {
        title: None,
        author: None,
        page_count: sheets.len(),
        word_count: 0,
        source_format: InputFormat::Xlsx,
        source_path: path.to_owned(),
        file_size_bytes: file_size,
    };
    Ok(ConversionResult::from_markdown(markdown, metadata))
}

} // verus!