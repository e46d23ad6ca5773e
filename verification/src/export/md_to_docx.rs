//! Markdown to DOCX export.
//!
//! The Markdown is parsed by `pulldown-cmark` into events; the builder here
//! turns the events into the paragraphs of a Word document: headings in
//! large bold type, paragraphs and list items (indented by nesting level),
//! code blocks in a monospace font, tables as tab-separated lines, and a
//! line of box-drawing characters for horizontal rules.

use vstd::prelude::*;
use crate::text::{trim, trim_str, push_char, replace_all, replace_str, joined, join_strings, string_from_chars};
use pulldown_cmark::{Event, Options, Parser, TagEnd};

verus! {

// ── Events ────────────────────────────────────────────────────────────────

/// The pulldown-cmark end-tag type.
#[verifier::external_type_specification]
#[verifier::external_body]
pub struct ExTagEnd(pulldown_cmark::TagEnd);

/// The kinds of Markdown elements the builder tells apart.
#[derive(Debug, Clone, Copy, PartialEq, Eq, Structural)]
pub enum MdTag {
    Paragraph,
    /// A heading of level 1 to 6.
    Heading(u8),
    BlockQuote,
    CodeBlock,
    /// A list, `true` when ordered.
    List(bool),
    Item,
    Table,
    TableHead,
    TableRow,
    TableCell,
    Emphasis,
    Strong,
    Strikethrough,
    Link,
    Other,
}

/// A Markdown event as the builder reads it.
pub enum MdEvent {
    Start(MdTag),
    End(MdTag),
    Text(String),
    Code(String),
    /// A soft or hard line break.
    Break,
    Rule,
    Html(String),
    Other,
}

/// The view of a Markdown event.
pub enum MdEventView {
    Start(MdTag),
    End(MdTag),
    Text(Seq<char>),
    Code(Seq<char>),
    Break,
    Rule,
    Html(Seq<char>),
    Other,
}

impl View for MdEvent {
    type V = MdEventView;

    open spec fn view(&self) -> MdEventView {
        match self {
            MdEvent::Start(t) => MdEventView::Start(*t),
            MdEvent::End(t) => MdEventView::End(*t),
            MdEvent::Text(s) => MdEventView::Text(s@),
            MdEvent::Code(s) => MdEventView::Code(s@),
            MdEvent::Break => MdEventView::Break,
            MdEvent::Rule => MdEventView::Rule,
            MdEvent::Html(s) => MdEventView::Html(s@),
            MdEvent::Other => MdEventView::Other,
        }
    }
}

/// The views of a list of events.
pub open spec fn md_event_views(v: Seq<MdEvent>) -> Seq<MdEventView> {
    v.map_values(|e: MdEvent| e@)
}

/// The events that `pulldown_cmark::Parser::new_ext` yields for a text with
/// tables, strikethrough and task lists enabled.
pub uninterp spec fn markdown_events_of(markdown: Seq<char>) -> Seq<MdEventView>;

/// A pulldown-cmark end tag of a block as the library's tag kind (a change
/// of type, one variant to one); other tags go to `inline_tag_kind`.
#[verifier::external_body]
fn tag_kind(t: &TagEnd) -> (r: MdTag) {
    match t {
        TagEnd::Paragraph => MdTag::Paragraph,
        TagEnd::Heading(l) => MdTag::Heading(*l as u8),
        TagEnd::BlockQuote(_) => MdTag::BlockQuote,
        TagEnd::CodeBlock => MdTag::CodeBlock,
        TagEnd::List(o) => MdTag::List(*o),
        TagEnd::Item => MdTag::Item,
        _ => inline_tag_kind(t),
    }
}

/// A pulldown-cmark end tag of a table part or an inline element as the
/// library's tag kind (a change of type, one variant to one).
#[verifier::external_body]
fn inline_tag_kind(t: &TagEnd) -> (r: MdTag) {
    match t {
        TagEnd::Table => MdTag::Table,
        TagEnd::TableHead => MdTag::TableHead,
        TagEnd::TableRow => MdTag::TableRow,
        TagEnd::TableCell => MdTag::TableCell,
        TagEnd::Emphasis => MdTag::Emphasis,
        TagEnd::Strong => MdTag::Strong,
        TagEnd::Strikethrough => MdTag::Strikethrough,
        TagEnd::Link => MdTag::Link,
        _ => MdTag::Other,
    }
}

/// `pulldown_cmark::Parser::new_ext` with tables, strikethrough and task
/// lists: the events of the text, in order.
#[verifier::external_body]
fn markdown_events(markdown: &str) -> (r: Vec<MdEvent>)
    ensures
        md_event_views(r@) == markdown_events_of(markdown@),
{
    let opts = Options::ENABLE_TABLES | Options::ENABLE_STRIKETHROUGH | Options::ENABLE_TASKLISTS;
    Parser::new_ext(markdown, opts).map(|e| match e {
        Event::Start(t) => MdEvent::Start(tag_kind(&t.to_end())),
        Event::End(t) => MdEvent::End(tag_kind(&t)),
        Event::Text(s) => MdEvent::Text(s.to_string()),
        Event::Code(s) => MdEvent::Code(s.to_string()),
        Event::Html(s) => MdEvent::Html(s.to_string()),
        Event::SoftBreak | Event::HardBreak => MdEvent::Break,
        Event::Rule => MdEvent::Rule,
        _ => MdEvent::Other,
    }).collect()
}

// ── The document model ────────────────────────────────────────────────────

/// What a run holds: text, or a line break.
pub enum RunPiece {
    Text(String),
    Break,
}

/// A run of a paragraph: its content and character formatting (a size in
/// half-points, and a monospace font when `mono`).
pub struct DocRun {
    pub piece: RunPiece,
    pub bold: bool,
    pub italic: bool,
    pub strike: bool,
    pub size: Option<usize>,
    pub mono: bool,
}

/// A paragraph: its runs, the spacing before and after it (in twentieths
/// of a point), and its left indent.
pub struct DocPara {
    pub runs: Vec<DocRun>,
    pub spacing_before: Option<u32>,
    pub spacing_after: Option<u32>,
    pub indent_left: Option<u128>,
}

/// The view of a run's content.
pub enum PieceView {
    Text(Seq<char>),
    Break,
}

/// The view of a run.
pub struct RunView {
    pub piece: PieceView,
    pub bold: bool,
    pub italic: bool,
    pub strike: bool,
    pub size: Option<usize>,
    pub mono: bool,
}

/// The view of a paragraph.
pub struct ParaView {
    pub runs: Seq<RunView>,
    pub spacing_before: Option<u32>,
    pub spacing_after: Option<u32>,
    pub indent_left: Option<u128>,
}

impl View for DocRun {
    type V = RunView;

    open spec fn view(&self) -> RunView {
        RunView {
            piece: match self.piece {
                RunPiece::Text(s) => PieceView::Text(s@),
                RunPiece::Break => PieceView::Break,
            },
            bold: self.bold,
            italic: self.italic,
            strike: self.strike,
            size: self.size,
            mono: self.mono,
        }
    }
}

/// The views of a list of runs.
pub open spec fn run_views(v: Seq<DocRun>) -> Seq<RunView> {
    v.map_values(|r: DocRun| r@)
}

impl View for DocPara {
    type V = ParaView;

    open spec fn view(&self) -> ParaView {
        ParaView {
            runs: run_views(self.runs@),
            spacing_before: self.spacing_before,
            spacing_after: self.spacing_after,
            indent_left: self.indent_left,
        }
    }
}

/// The views of a list of paragraphs.
pub open spec fn para_views(v: Seq<DocPara>) -> Seq<ParaView> {
    v.map_values(|p: DocPara| p@)
}

/// A plain text run with the given emphasis.
pub open spec fn text_run(t: Seq<char>, bold: bool, italic: bool, strike: bool) -> RunView {
    RunView { piece: PieceView::Text(t), bold, italic, strike, size: None, mono: false }
}

/// A run of inline code: monospace, 10 points.
pub open spec fn code_run(t: Seq<char>) -> RunView {
    RunView { piece: PieceView::Text(t), bold: false, italic: false, strike: false, size: Some(20), mono: true }
}

/// A line-break run.
pub open spec fn break_run() -> RunView {
    RunView { piece: PieceView::Break, bold: false, italic: false, strike: false, size: None, mono: false }
}

fn make_text_run(t: String, bold: bool, italic: bool, strike: bool) -> (r: DocRun)
    ensures
        r@ == text_run(t@, bold, italic, strike),
{
    DocRun { piece: RunPiece::Text(t), bold, italic, strike, size: None, mono: false }
}

fn make_code_run(t: String) -> (r: DocRun)
    ensures
        r@ == code_run(t@),
{
    DocRun { piece: RunPiece::Text(t), bold: false, italic: false, strike: false, size: Some(20), mono: true }
}

fn make_break_run() -> (r: DocRun)
    ensures
        r@ == break_run(),
{
    DocRun { piece: RunPiece::Break, bold: false, italic: false, strike: false, size: None, mono: false }
}

// ── Inline content of a heading ───────────────────────────────────────────

/// The runs of the inline content from event `i` on, at nesting `depth`,
/// up to the end tag that closes the element, with that tag's position
/// (the last position when there is none). Text takes the current bold and
/// italic, inline code is monospace, breaks are kept, other events are
/// passed over.
pub open spec fn inline_scan(evs: Seq<MdEventView>, i: int, depth: nat, bold: bool, italic: bool, runs: Seq<RunView>) -> (Seq<RunView>, int)
    decreases evs.len() - i,
{
    if i < 0 || i >= evs.len() {
        (runs, if evs.len() > 0 { evs.len() - 1 } else { 0 })
    } else {
        match evs[i] {
            MdEventView::Start(_) => inline_scan(evs, i + 1, depth + 1, bold, italic, runs),
            MdEventView::End(_) => if depth <= 1 {
                (runs, i)
            } else {
                inline_scan(evs, i + 1, (depth - 1) as nat, bold, italic, runs)
            },
            MdEventView::Text(t) => inline_scan(evs, i + 1, depth, bold, italic, runs.push(text_run(t, bold, italic, false))),
            MdEventView::Code(c) => inline_scan(evs, i + 1, depth, bold, italic, runs.push(code_run(c))),
            MdEventView::Break => inline_scan(evs, i + 1, depth, bold, italic, runs.push(break_run())),
            _ => inline_scan(evs, i + 1, depth, bold, italic, runs),
        }
    }
}

/// The runs of a heading's content and the position of its end.
fn collect_inline(events: &Vec<MdEvent>, start: usize, bold: bool, italic: bool) -> (r: (Vec<DocRun>, usize))
    requires
        0 < start <= events@.len(),
    ensures
        (run_views(r.0@), r.1 as int) == inline_scan(md_event_views(events@), start as int, 1, bold, italic, Seq::empty()),
        start - 1 <= r.1 < events@.len(),
{
    let ghost evs = md_event_views(events@);
    let mut runs: Vec<DocRun> = Vec::new();
    let mut depth: usize = 1;
    let mut i: usize = start;
    assert(run_views(runs@) =~= Seq::<RunView>::empty());
    while i < events.len()
        invariant
            0 < start <= i <= events@.len(),
            1 <= depth <= i - start + 1,
            evs == md_event_views(events@),
            inline_scan(evs, start as int, 1, bold, italic, Seq::empty())
                == inline_scan(evs, i as int, depth as nat, bold, italic, run_views(runs@)),
        decreases events@.len() - i,
    {
        assert(evs[i as int] == events@[i as int]@);
        let ghost before = run_views(runs@);
        match &events[i] {
            MdEvent::Start(_) => {
                depth = depth + 1;
            },
            MdEvent::End(_) => {
                if depth <= 1 {
                    return (runs, i);
                }
                depth = depth - 1;
            },
            MdEvent::Text(t) => {
                runs.push(make_text_run(t.clone(), bold, italic, false));
                assert(run_views(runs@) =~= before.push(text_run(t@, bold, italic, false)));
            },
            MdEvent::Code(c) => {
                runs.push(make_code_run(c.clone()));
                assert(run_views(runs@) =~= before.push(code_run(c@)));
            },
            MdEvent::Break => {
                runs.push(make_break_run());
                assert(run_views(runs@) =~= before.push(break_run()));
            },
            _ => {},
        }
        i = i + 1;
    }
    (runs, i - 1)
}

// ── Code blocks ───────────────────────────────────────────────────────────

/// The text of a code block from event `i` on, up to its end tag, with the
/// end tag's position (the last position when there is none).
pub open spec fn code_scan(evs: Seq<MdEventView>, i: int, code: Seq<char>) -> (Seq<char>, int)
    decreases evs.len() - i,
{
    if i < 0 || i >= evs.len() {
        (code, if evs.len() > 0 { evs.len() - 1 } else { 0 })
    } else {
        match evs[i] {
            MdEventView::Text(t) => code_scan(evs, i + 1, code + t),
            MdEventView::End(MdTag::CodeBlock) => (code, i),
            _ => code_scan(evs, i + 1, code),
        }
    }
}

/// The text of a code block and the position of its end.
fn collect_code_block(events: &Vec<MdEvent>, start: usize) -> (r: (String, usize))
    requires
        0 < start <= events@.len(),
    ensures
        (r.0@, r.1 as int) == code_scan(md_event_views(events@), start as int, Seq::empty()),
        start - 1 <= r.1 < events@.len(),
{
    let ghost evs = md_event_views(events@);
    let mut code = String::new();
    let mut i: usize = start;
    assert(code@ =~= Seq::<char>::empty());
    while i < events.len()
        invariant
            0 < start <= i <= events@.len(),
            evs == md_event_views(events@),
            code_scan(evs, start as int, Seq::empty()) == code_scan(evs, i as int, code@),
        decreases events@.len() - i,
    {
        assert(evs[i as int] == events@[i as int]@);
        match &events[i] {
            MdEvent::Text(t) => {
                code.append(t.as_str());
            },
            MdEvent::End(MdTag::CodeBlock) => {
                return (code, i);
            },
            _ => {},
        }
        i = i + 1;
    }
    (code, i - 1)
}

// ── Tables ────────────────────────────────────────────────────────────────

/// The rows of a table from event `i` on, up to its end tag, as trimmed
/// cell texts, with the end tag's position; nothing when there is no end
/// tag (the position is then the last one). A row that ends with text not
/// yet closed in a cell keeps that text as a last cell.
pub open spec fn table_scan(
    evs: Seq<MdEventView>,
    i: int,
    rows: Seq<Seq<Seq<char>>>,
    row: Seq<Seq<char>>,
    cell: Seq<char>,
    in_cell: bool,
) -> (Option<Seq<Seq<Seq<char>>>>, int)
    decreases evs.len() - i,
{
    if i < 0 || i >= evs.len() {
        (None, if evs.len() > 0 { evs.len() - 1 } else { 0 })
    } else {
        match evs[i] {
            MdEventView::Start(MdTag::TableHead) | MdEventView::Start(MdTag::TableRow) => table_scan(
                evs,
                i + 1,
                rows,
                Seq::empty(),
                cell,
                in_cell,
            ),
            MdEventView::End(MdTag::TableHead) | MdEventView::End(MdTag::TableRow) => if cell.len() > 0 {
                table_scan(evs, i + 1, rows.push(row.push(trim(cell))), Seq::empty(), Seq::empty(), in_cell)
            } else {
                table_scan(evs, i + 1, rows.push(row), Seq::empty(), cell, in_cell)
            },
            MdEventView::Start(MdTag::TableCell) => table_scan(evs, i + 1, rows, row, Seq::empty(), true),
            MdEventView::End(MdTag::TableCell) => table_scan(evs, i + 1, rows, row.push(trim(cell)), Seq::empty(), false),
            MdEventView::Text(t) => if in_cell {
                table_scan(evs, i + 1, rows, row, cell + t, in_cell)
            } else {
                table_scan(evs, i + 1, rows, row, cell, in_cell)
            },
            MdEventView::Code(c) => if in_cell {
                table_scan(evs, i + 1, rows, row, cell + c, in_cell)
            } else {
                table_scan(evs, i + 1, rows, row, cell, in_cell)
            },
            MdEventView::End(MdTag::Table) => (Some(rows), i),
            _ => table_scan(evs, i + 1, rows, row, cell, in_cell),
        }
    }
}

/// The runs of a table: the header row in bold (and a break when more rows
/// follow), then the other rows, one per line; cells are separated by tabs.
pub open spec fn table_runs(rows: Seq<Seq<Seq<char>>>) -> Seq<RunView> {
    (if rows.len() > 0 {
        seq![RunView {
            piece: PieceView::Text(joined(rows[0], "\t"@)),
            bold: true,
            italic: false,
            strike: false,
            size: Some(20),
            mono: false,
        }] + if rows.len() > 1 { seq![break_run()] } else { Seq::empty() }
    } else {
        Seq::empty()
    }) + if rows.len() > 1 {
        seq![RunView {
            piece: PieceView::Text(joined(rows.skip(1).map_values(|r: Seq<Seq<char>>| joined(r, "\t"@)), "\n"@)),
            bold: false,
            italic: false,
            strike: false,
            size: Some(20),
            mono: false,
        }]
    } else {
        Seq::empty()
    }
}

/// The paragraph of a table, or a `[Table]` placeholder when it never ends.
pub open spec fn table_para(rows: Option<Seq<Seq<Seq<char>>>>) -> ParaView {
    match rows {
        Some(rs) => ParaView { runs: table_runs(rs), spacing_before: Some(120), spacing_after: Some(120), indent_left: None },
        None => ParaView {
            runs: seq![text_run("[Table]"@, false, false, false)],
            spacing_before: None,
            spacing_after: None,
            indent_left: None,
        },
    }
}

/// The views of table rows.
pub open spec fn rows_views(v: Seq<Vec<String>>) -> Seq<Seq<Seq<char>>> {
    v.map_values(|r: Vec<String>| r@.map_values(|c: String| c@))
}

/// The trimmed text of a cell.
fn trimmed_cell(cell: &String) -> (r: String)
    ensures
        r@ == trim(cell@),
{
    let t = trim_str(cell.as_str());
    string_from_chars(t.as_slice())
}

/// The runs of a table.
fn make_table_runs(rows: &Vec<Vec<String>>) -> (r: Vec<DocRun>)
    ensures
        run_views(r@) == table_runs(rows_views(rows@)),
{
    let ghost rv = rows_views(rows@);
    let mut runs: Vec<DocRun> = Vec::new();
    if rows.len() > 0 {
        let header_text = join_strings(&rows[0], "\t");
        runs.push(DocRun {
            piece: RunPiece::Text(header_text),
            bold: true,
            italic: false,
            strike: false,
            size: Some(20),
            mono: false,
        });
        if rows.len() > 1 {
            runs.push(make_break_run());
        }
    }
    if rows.len() > 1 {
        let mut body: Vec<String> = Vec::new();
        let mut k: usize = 1;
        while k < rows.len()
            invariant
                1 <= k <= rows@.len(),
                rv == rows_views(rows@),
                body@.map_values(|s: String| s@) == rv.skip(1).take(k - 1).map_values(|r: Seq<Seq<char>>| joined(r, "\t"@)),
            decreases rows@.len() - k,
        {
            let line = join_strings(&rows[k], "\t");
            let ghost before = body@.map_values(|s: String| s@);
            body.push(line);
            assert(body@.map_values(|s: String| s@) =~= before.push(line@));
            assert(rv.skip(1).take(k as int) =~= rv.skip(1).take(k - 1).push(rv[k as int]));
            assert(rv[k as int] == rows@[k as int]@.map_values(|c: String| c@));
            assert(rv.skip(1).take(k as int).map_values(|r: Seq<Seq<char>>| joined(r, "\t"@)) =~= rv.skip(1).take(k - 1).map_values(
                |r: Seq<Seq<char>>| joined(r, "\t"@),
            ).push(joined(rv[k as int], "\t"@)));
            k = k + 1;
        }
        assert(rv.skip(1).take(rows@.len() - 1) =~= rv.skip(1));
        let text = join_strings(&body, "\n");
        runs.push(DocRun { piece: RunPiece::Text(text), bold: false, italic: false, strike: false, size: Some(20), mono: false });
    }
    assert(rows@.len() > 0 ==> rv[0] == rows@[0]@.map_values(|c: String| c@));
    assert(run_views(runs@) =~= table_runs(rv));
    runs
}

/// The paragraph of a table and the position of its end.
fn collect_table(events: &Vec<MdEvent>, start: usize) -> (r: (DocPara, usize))
    requires
        0 < start <= events@.len(),
    ensures
        r.0@ == table_para(table_scan(md_event_views(events@), start as int, Seq::empty(), Seq::empty(), Seq::empty(), false).0),
        r.1 as int == table_scan(md_event_views(events@), start as int, Seq::empty(), Seq::empty(), Seq::empty(), false).1,
        start - 1 <= r.1 < events@.len(),
{
    let ghost evs = md_event_views(events@);
    let mut rows: Vec<Vec<String>> = Vec::new();
    let mut row: Vec<String> = Vec::new();
    let mut cell = String::new();
    let mut in_cell = false;
    let mut i: usize = start;
    assert(rows_views(rows@) =~= Seq::<Seq<Seq<char>>>::empty());
    assert(row@.map_values(|c: String| c@) =~= Seq::<Seq<char>>::empty());
    assert(cell@ =~= Seq::<char>::empty());
    while i < events.len()
        invariant
            0 < start <= i <= events@.len(),
            evs == md_event_views(events@),
            table_scan(evs, start as int, Seq::empty(), Seq::empty(), Seq::empty(), false) == table_scan(
                evs,
                i as int,
                rows_views(rows@),
                row@.map_values(|c: String| c@),
                cell@,
                in_cell,
            ),
        decreases events@.len() - i,
    {
        assert(evs[i as int] == events@[i as int]@);
        let ghost rows_before = rows_views(rows@);
        let ghost row_before = row@.map_values(|c: String| c@);
        match &events[i] {
            MdEvent::Start(MdTag::TableHead) | MdEvent::Start(MdTag::TableRow) => {
                row = Vec::new();
                assert(row@.map_values(|c: String| c@) =~= Seq::<Seq<char>>::empty());
            },
            MdEvent::End(MdTag::TableHead) | MdEvent::End(MdTag::TableRow) => {
                if cell.as_str().unicode_len() > 0 {
                    let t = trimmed_cell(&cell);
                    row.push(t);
                    assert(row@.map_values(|c: String| c@) =~= row_before.push(trim(cell@)));
                    cell = String::new();
                }
                let ghost finished = row@.map_values(|c: String| c@);
                let mut done: Vec<String> = Vec::new();
                std::mem::swap(&mut done, &mut row);
                rows.push(done);
                assert(rows_views(rows@) =~= rows_before.push(finished));
                assert(row@.map_values(|c: String| c@) =~= Seq::<Seq<char>>::empty());
            },
            MdEvent::Start(MdTag::TableCell) => {
                in_cell = true;
                cell = String::new();
            },
            MdEvent::End(MdTag::TableCell) => {
                in_cell = false;
                let t = trimmed_cell(&cell);
                row.push(t);
                assert(row@.map_values(|c: String| c@) =~= row_before.push(trim(cell@)));
                cell = String::new();
            },
            MdEvent::Text(t) => {
                if in_cell {
                    cell.append(t.as_str());
                }
            },
            MdEvent::Code(c) => {
                if in_cell {
                    cell.append(c.as_str());
                }
            },
            MdEvent::End(MdTag::Table) => {
                let runs = make_table_runs(&rows);
                return (DocPara { runs, spacing_before: Some(120), spacing_after: Some(120), indent_left: None }, i);
            },
            _ => {},
        }
        i = i + 1;
    }
    proof {
        reveal_strlit("[Table]");
    }
    let mut runs: Vec<DocRun> = Vec::new();
    runs.push(make_text_run("[Table]".to_owned(), false, false, false));
    assert(run_views(runs@) =~= seq![text_run("[Table]"@, false, false, false)]);
    (DocPara { runs, spacing_before: None, spacing_after: None, indent_left: None }, i - 1)
}

// ── The builder ───────────────────────────────────────────────────────────

/// The state of the builder: the runs of the paragraph being collected,
/// the current emphasis, the finished paragraphs and the list nesting level.
pub struct BuildState {
    pub runs: Seq<RunView>,
    pub bold: bool,
    pub italic: bool,
    pub strike: bool,
    pub paras: Seq<ParaView>,
    pub level: nat,
}

/// The collected runs as a paragraph (indented by 360 per list level), when
/// there are any.
pub open spec fn flush(s: BuildState) -> BuildState {
    if s.runs.len() == 0 {
        s
    } else {
        BuildState {
            paras: s.paras.push(ParaView {
                runs: s.runs,
                spacing_before: None,
                spacing_after: Some(80),
                indent_left: if s.level > 0 { Some((360 * s.level) as u128) } else { None },
            }),
            runs: Seq::empty(),
            ..s
        }
    }
}

/// The type size (in half-points) of a heading level.
pub open spec fn heading_size(level: u8) -> usize {
    if level == 1 {
        48
    } else if level == 2 {
        36
    } else if level == 3 {
        28
    } else if level == 4 {
        24
    } else if level == 5 {
        22
    } else {
        20
    }
}

/// A heading's paragraph: its runs in the heading's size, in bold.
pub open spec fn heading_para(runs: Seq<RunView>, level: u8) -> ParaView {
    ParaView {
        runs: runs.map_values(|r: RunView| RunView { size: Some(heading_size(level)), bold: true, ..r }),
        spacing_before: None,
        spacing_after: Some(160),
        indent_left: None,
    }
}

/// A code block's paragraph: one monospace run, indented.
pub open spec fn code_para(code: Seq<char>) -> ParaView {
    ParaView { runs: seq![code_run(code)], spacing_before: Some(80), spacing_after: Some(80), indent_left: Some(360) }
}

/// The forty box-drawing characters of a horizontal rule.
pub open spec fn rule_text() -> Seq<char> {
    Seq::new(40, |i: int| '\u{2500}')
}

/// A horizontal rule's paragraph.
pub open spec fn rule_para() -> ParaView {
    ParaView {
        runs: seq![text_run(rule_text(), false, false, false)],
        spacing_before: Some(120),
        spacing_after: Some(120),
        indent_left: None,
    }
}

/// Raw HTML with its angle brackets turned into spaces.
pub open spec fn html_as_text(h: Seq<char>) -> Seq<char> {
    replace_all(replace_all(h, "<"@, " "@), ">"@, " "@)
}

/// The builder from event `i` on.
pub open spec fn build_scan(evs: Seq<MdEventView>, i: int, s: BuildState) -> BuildState
    decreases evs.len() - i,
{
    if i < 0 || i >= evs.len() {
        s
    } else {
        match evs[i] {
            MdEventView::Start(MdTag::Heading(l)) => {
                let s1 = flush(s);
                let (runs, end) = inline_scan(evs, i + 1, 1, s1.bold, s1.italic, Seq::empty());
                let s2 = BuildState { paras: s1.paras.push(heading_para(runs, l)), ..s1 };
                if end + 1 > i && end < evs.len() {
                    build_scan(evs, end + 1, s2)
                } else {
                    s2
                }
            },
            MdEventView::Start(MdTag::Table) => {
                let s1 = flush(s);
                let (rows, end) = table_scan(evs, i + 1, Seq::empty(), Seq::empty(), Seq::empty(), false);
                let s2 = BuildState { paras: s1.paras.push(table_para(rows)), ..s1 };
                if end + 1 > i && end < evs.len() {
                    build_scan(evs, end + 1, s2)
                } else {
                    s2
                }
            },
            MdEventView::Start(MdTag::CodeBlock) => {
                let s1 = flush(s);
                let (code, end) = code_scan(evs, i + 1, Seq::empty());
                let s2 = BuildState { paras: s1.paras.push(code_para(code)), ..s1 };
                if end + 1 > i && end < evs.len() {
                    build_scan(evs, end + 1, s2)
                } else {
                    s2
                }
            },
            MdEventView::Start(MdTag::Paragraph) | MdEventView::Start(MdTag::Item)
            | MdEventView::Start(MdTag::BlockQuote) => build_scan(evs, i + 1, flush(s)),
            MdEventView::Start(MdTag::Strong) => build_scan(evs, i + 1, BuildState { bold: true, ..s }),
            MdEventView::Start(MdTag::Emphasis) => build_scan(evs, i + 1, BuildState { italic: true, ..s }),
            MdEventView::Start(MdTag::Strikethrough) => build_scan(evs, i + 1, BuildState { strike: true, ..s }),
            MdEventView::Start(MdTag::List(_)) => build_scan(evs, i + 1, flush(BuildState { level: s.level + 1, ..s })),
            MdEventView::Start(_) => build_scan(evs, i + 1, s),
            MdEventView::End(MdTag::Paragraph) | MdEventView::End(MdTag::Item) => build_scan(evs, i + 1, flush(s)),
            MdEventView::End(MdTag::Strong) => build_scan(evs, i + 1, BuildState { bold: false, ..s }),
            MdEventView::End(MdTag::Emphasis) => build_scan(evs, i + 1, BuildState { italic: false, ..s }),
            MdEventView::End(MdTag::Strikethrough) => build_scan(evs, i + 1, BuildState { strike: false, ..s }),
            MdEventView::End(MdTag::List(_)) => build_scan(
                evs,
                i + 1,
                BuildState { level: if s.level > 0 { (s.level - 1) as nat } else { 0 }, ..s },
            ),
            MdEventView::End(_) => build_scan(evs, i + 1, s),
            MdEventView::Text(t) => build_scan(evs, i + 1, BuildState { runs: s.runs.push(text_run(t, s.bold, s.italic, s.strike)), ..s }),
            MdEventView::Code(c) => build_scan(evs, i + 1, BuildState { runs: s.runs.push(code_run(c)), ..s }),
            MdEventView::Break => build_scan(evs, i + 1, BuildState { runs: s.runs.push(break_run()), ..s }),
            MdEventView::Rule => {
                let s1 = flush(s);
                build_scan(evs, i + 1, BuildState { paras: s1.paras.push(rule_para()), ..s1 })
            },
            MdEventView::Html(h) => if trim(html_as_text(h)).len() > 0 {
                build_scan(evs, i + 1, BuildState { runs: s.runs.push(text_run(trim(html_as_text(h)), false, false, false)), ..s })
            } else {
                build_scan(evs, i + 1, s)
            },
            MdEventView::Other => build_scan(evs, i + 1, s),
        }
    }
}

/// The title's paragraph: large and bold.
pub open spec fn title_para(t: Seq<char>) -> ParaView {
    ParaView {
        runs: seq![RunView { piece: PieceView::Text(t), bold: true, italic: false, strike: false, size: Some(56), mono: false }],
        spacing_before: None,
        spacing_after: Some(200),
        indent_left: None,
    }
}

/// The paragraphs of a document built from Markdown events, after the
/// title's paragraph when there is a title.
pub open spec fn document_paras(title: Option<Seq<char>>, evs: Seq<MdEventView>) -> Seq<ParaView> {
    let init = BuildState {
        runs: Seq::empty(),
        bold: false,
        italic: false,
        strike: false,
        paras: match title {
            Some(t) => seq![title_para(t)],
            None => Seq::empty(),
        },
        level: 0,
    };
    flush(build_scan(evs, 0, init)).paras
}

/// The builder's state as a view.
pub open spec fn state_view(runs: Seq<DocRun>, bold: bool, italic: bool, strike: bool, paras: Seq<DocPara>, level: usize) -> BuildState {
    BuildState { runs: run_views(runs), bold, italic, strike, paras: para_views(paras), level: level as nat }
}

/// Turns the collected runs into a paragraph.
fn flush_paragraph(runs: &mut Vec<DocRun>, paras: &mut Vec<DocPara>, level: usize, Ghost(bold): Ghost<bool>, Ghost(italic): Ghost<bool>, Ghost(strike): Ghost<bool>)
    ensures
        state_view(final(runs)@, bold, italic, strike, final(paras)@, level)
            == flush(state_view(old(runs)@, bold, italic, strike, old(paras)@, level)),
{
    if runs.len() == 0 {
        return;
    }
    let mut taken: Vec<DocRun> = Vec::new();
    std::mem::swap(&mut taken, runs);
    let indent_left = if level > 0 { Some(360u128 * (level as u128)) } else { None };
    let ghost before = para_views(paras@);
    paras.push(DocPara { runs: taken, spacing_before: None, spacing_after: Some(80), indent_left });
    assert(para_views(paras@) =~= before.push(paras@[paras@.len() - 1]@));
    assert(run_views(runs@) =~= Seq::<RunView>::empty());
}

/// A heading's runs: in the heading's size, in bold.
fn heading_runs(runs: Vec<DocRun>, level: u8) -> (r: Vec<DocRun>)
    ensures
        run_views(r@) == heading_para(run_views(runs@), level).runs,
{
    let size: usize = if level == 1 {
        48
    } else if level == 2 {
        36
    } else if level == 3 {
        28
    } else if level == 4 {
        24
    } else if level == 5 {
        22
    } else {
        20
    };
    let ghost target = heading_para(run_views(runs@), level).runs;
    let mut out: Vec<DocRun> = Vec::new();
    let mut rest = runs;
    let ghost all = run_views(rest@);
    let mut k: usize = 0;
    let n = rest.len();
    while rest.len() > 0
        invariant
            k + rest@.len() == n,
            all.len() == n,
            target == all.map_values(|r: RunView| RunView { size: Some(heading_size(level)), bold: true, ..r }),
            size == heading_size(level),
            run_views(rest@) == all.skip(k as int),
            run_views(out@) == target.take(k as int),
        decreases rest@.len(),
    {
        let ghost old_rest = rest@;
        let r = rest.remove(0);
        assert(run_views(old_rest)[0] == r@);
        assert(all.skip(k as int)[0] == r@);
        assert(run_views(rest@) =~= run_views(old_rest).drop_first());
        assert(all.skip(k as int).drop_first() =~= all.skip(k + 1));
        let ghost before = run_views(out@);
        out.push(DocRun { piece: r.piece, bold: true, italic: r.italic, strike: r.strike, size: Some(size), mono: r.mono });
        assert(run_views(out@) =~= before.push(target[k as int]));
        assert(target.take(k + 1) =~= target.take(k as int).push(target[k as int]));
        k = k + 1;
    }
    assert(target.take(n as int) =~= target);
    out
}

/// The run of forty box-drawing characters.
fn rule_run() -> (r: DocRun)
    ensures
        r@ == text_run(rule_text(), false, false, false),
{
    let mut t = String::new();
    let mut k: usize = 0;
    while k < 40
        invariant
            k <= 40,
            t@ == Seq::new(k as nat, |i: int| '\u{2500}'),
        decreases 40 - k,
    {
        push_char(&mut t, '\u{2500}');
        assert(t@ =~= Seq::new((k + 1) as nat, |i: int| '\u{2500}'));
        k = k + 1;
    }
    make_text_run(t, false, false, false)
}

/// Build the paragraphs of a document from Markdown events, after the
/// title's paragraph when there is a title.
pub fn build_paragraphs(title: Option<&str>, events: &Vec<MdEvent>) -> (r: Vec<DocPara>)
    ensures
        para_views(r@) == document_paras(
            match title {
                Some(t) => Some(t@),
                None => None,
            },
            md_event_views(events@),
        ),
{
    let ghost evs = md_event_views(events@);
    let mut paras: Vec<DocPara> = Vec::new();
    match title {
        Some(t) => {
            let mut runs: Vec<DocRun> = Vec::new();
            runs.push(DocRun {
                piece: RunPiece::Text(t.to_owned()),
                bold: true,
                italic: false,
                strike: false,
                size: Some(56),
                mono: false,
            });
            assert(run_views(runs@) =~= title_para(t@).runs);
            paras.push(DocPara { runs, spacing_before: None, spacing_after: Some(200), indent_left: None });
            assert(para_views(paras@) =~= seq![title_para(t@)]);
        },
        None => {
            assert(para_views(paras@) =~= Seq::<ParaView>::empty());
        },
    }
    let mut runs: Vec<DocRun> = Vec::new();
    let mut bold = false;
    let mut italic = false;
    let mut strike = false;
    let mut level: usize = 0;
    let mut i: usize = 0;
    assert(run_views(runs@) =~= Seq::<RunView>::empty());
    let ghost init = state_view(runs@, bold, italic, strike, paras@, level);
    while i < events.len()
        invariant
            i <= events@.len(),
            level <= i,
            evs == md_event_views(events@),
            build_scan(evs, 0, init) == build_scan(evs, i as int, state_view(runs@, bold, italic, strike, paras@, level)),
        decreases events@.len() - i,
    {
        assert(evs[i as int] == events@[i as int]@);
        let ghost st = state_view(runs@, bold, italic, strike, paras@, level);
        let mut next = i + 1;
        match &events[i] {
            MdEvent::Start(MdTag::Heading(l)) => {
                flush_paragraph(&mut runs, &mut paras, level, Ghost(bold), Ghost(italic), Ghost(strike));
                let (hruns, end) = collect_inline(events, i + 1, bold, italic);
                let hr = heading_runs(hruns, *l);
                let ghost before = para_views(paras@);
                paras.push(DocPara { runs: hr, spacing_before: None, spacing_after: Some(160), indent_left: None });
                assert(para_views(paras@) =~= before.push(heading_para(inline_scan(evs, i + 1, 1, bold, italic, Seq::empty()).0, *l)));
                next = end + 1;
            },
            MdEvent::Start(MdTag::Table) => {
                flush_paragraph(&mut runs, &mut paras, level, Ghost(bold), Ghost(italic), Ghost(strike));
                let (tp, end) = collect_table(events, i + 1);
                let ghost before = para_views(paras@);
                paras.push(tp);
                assert(para_views(paras@) =~= before.push(table_para(table_scan(evs, i + 1, Seq::empty(), Seq::empty(), Seq::empty(), false).0)));
                next = end + 1;
            },
            MdEvent::Start(MdTag::CodeBlock) => {
                flush_paragraph(&mut runs, &mut paras, level, Ghost(bold), Ghost(italic), Ghost(strike));
                let (code, end) = collect_code_block(events, i + 1);
                let mut cr: Vec<DocRun> = Vec::new();
                cr.push(make_code_run(code));
                assert(run_views(cr@) =~= code_para(code_scan(evs, i + 1, Seq::empty()).0).runs);
                let ghost before = para_views(paras@);
                paras.push(DocPara { runs: cr, spacing_before: Some(80), spacing_after: Some(80), indent_left: Some(360) });
                assert(para_views(paras@) =~= before.push(code_para(code_scan(evs, i + 1, Seq::empty()).0)));
                next = end + 1;
            },
            MdEvent::Start(MdTag::Paragraph) | MdEvent::Start(MdTag::Item) | MdEvent::Start(MdTag::BlockQuote) => {
                flush_paragraph(&mut runs, &mut paras, level, Ghost(bold), Ghost(italic), Ghost(strike));
            },
            MdEvent::Start(MdTag::Strong) => {
                bold = true;
            },
            MdEvent::Start(MdTag::Emphasis) => {
                italic = true;
            },
            MdEvent::Start(MdTag::Strikethrough) => {
                strike = true;
            },
            MdEvent::Start(MdTag::List(_)) => {
                level = level + 1;
                flush_paragraph(&mut runs, &mut paras, level, Ghost(bold), Ghost(italic), Ghost(strike));
            },
            MdEvent::Start(_) => {},
            MdEvent::End(MdTag::Paragraph) | MdEvent::End(MdTag::Item) => {
                flush_paragraph(&mut runs, &mut paras, level, Ghost(bold), Ghost(italic), Ghost(strike));
            },
            MdEvent::End(MdTag::Strong) => {
                bold = false;
            },
            MdEvent::End(MdTag::Emphasis) => {
                italic = false;
            },
            MdEvent::End(MdTag::Strikethrough) => {
                strike = false;
            },
            MdEvent::End(MdTag::List(_)) => {
                if level > 0 {
                    level = level - 1;
                }
            },
            MdEvent::End(_) => {},
            MdEvent::Text(t) => {
                let ghost before = run_views(runs@);
                runs.push(make_text_run(t.clone(), bold, italic, strike));
                assert(run_views(runs@) =~= before.push(text_run(t@, bold, italic, strike)));
            },
            MdEvent::Code(c) => {
                let ghost before = run_views(runs@);
                runs.push(make_code_run(c.clone()));
                assert(run_views(runs@) =~= before.push(code_run(c@)));
            },
            MdEvent::Break => {
                let ghost before = run_views(runs@);
                runs.push(make_break_run());
                assert(run_views(runs@) =~= before.push(break_run()));
            },
            MdEvent::Rule => {
                flush_paragraph(&mut runs, &mut paras, level, Ghost(bold), Ghost(italic), Ghost(strike));
                let mut rr: Vec<DocRun> = Vec::new();
                rr.push(rule_run());
                assert(run_views(rr@) =~= rule_para().runs);
                let ghost before = para_views(paras@);
                paras.push(DocPara { runs: rr, spacing_before: Some(120), spacing_after: Some(120), indent_left: None });
                assert(para_views(paras@) =~= before.push(rule_para()));
            },
            MdEvent::Html(h) => {
                proof {
                    reveal_strlit("<");
                    reveal_strlit(">");
                }
                let a = replace_str(h.as_str(), "<", " ");
                let b = replace_str(a.as_str(), ">", " ");
                let t = trim_str(b.as_str());
                if t.len() > 0 {
                    let ghost before = run_views(runs@);
                    runs.push(make_text_run(string_from_chars(t.as_slice()), false, false, false));
                    assert(run_views(runs@) =~= before.push(text_run(trim(html_as_text(h@)), false, false, false)));
                }
            },
            MdEvent::Other => {},
        }
        i = next;
    }
    flush_paragraph(&mut runs, &mut paras, level, Ghost(bold), Ghost(italic), Ghost(strike));
    paras
}

/// The paragraphs of the Word document for a Markdown text.
pub fn markdown_to_paragraphs(markdown: &str, title: Option<&str>) -> (r: Vec<DocPara>)
    ensures
        para_views(r@) == document_paras(
            match title {
                Some(t) => Some(t@),
                None => None,
            },
            markdown_events_of(markdown@),
        ),
{
    let events = markdown_events(markdown);
    build_paragraphs(title, &events)
}

// ── Writing the package ───────────────────────────────────────────────────

/// A run of a `docx-rs` document.
#[verifier::external_type_specification]
#[verifier::external_body]
pub struct ExRun(docx_rs::Run);

/// A paragraph of a `docx-rs` document.
#[verifier::external_type_specification]
#[verifier::external_body]
pub struct ExParagraph(docx_rs::Paragraph);

/// A `docx-rs` document.
#[verifier::external_type_specification]
#[verifier::external_body]
pub struct ExDocx(docx_rs::Docx);

/// The character formatting that this library gives a `docx-rs` run: bold,
/// italic, struck through, a size in half-points, and the Courier New font
/// when `mono`.
pub struct RunFormat {
    pub bold: bool,
    pub italic: bool,
    pub strike: bool,
    pub size: Option<usize>,
    pub mono: bool,
}

/// The paragraph layout that this library gives a `docx-rs` paragraph: the
/// spacing before and after it, and its left indent.
pub struct ParaLayout {
    pub spacing_before: Option<u32>,
    pub spacing_after: Option<u32>,
    pub indent_left: Option<i32>,
}

/// A run's form as `docx-rs` holds it: its pieces and its formatting.
pub type DocxRunForm = (Seq<PieceView>, RunFormat);

/// A paragraph's form as `docx-rs` holds it: its runs and its layout.
pub type DocxParaForm = (Seq<DocxRunForm>, ParaLayout);

/// What a `docx-rs` run holds, in order: its breaks, and its texts as they
/// read (docx-rs stores a text XML-escaped; this is the text that escaped
/// form stands for).
pub uninterp spec fn docx_run_pieces(r: docx_rs::Run) -> Seq<PieceView>;

/// The formatting a `docx-rs` run was given.
pub uninterp spec fn docx_run_format(r: docx_rs::Run) -> RunFormat;

/// The runs a `docx-rs` paragraph holds, in order.
pub uninterp spec fn docx_paragraph_runs(p: docx_rs::Paragraph) -> Seq<DocxRunForm>;

/// The layout a `docx-rs` paragraph was given.
pub uninterp spec fn docx_paragraph_layout(p: docx_rs::Paragraph) -> ParaLayout;

/// The paragraphs of a `docx-rs` document, in order.
pub uninterp spec fn docx_document_paragraphs(d: docx_rs::Docx) -> Seq<DocxParaForm>;

/// A text without its line feeds and carriage returns (`Run::add_text`
/// drops the line feeds, and its XML escaping drops the carriage returns).
pub open spec fn without_line_breaks(t: Seq<char>) -> Seq<char> {
    t.filter(|c: char| c != '\n' && c != '\r')
}

/// No formatting.
pub open spec fn plain_format() -> RunFormat {
    RunFormat { bold: false, italic: false, strike: false, size: None, mono: false }
}

/// `docx_rs::Run::new().add_text(text)`: a run holding the text, line feeds
/// and carriage returns removed, with no formatting.
#[verifier::external_body]
fn run_text(text: &str) -> (r: docx_rs::Run)
    ensures
        docx_run_pieces(r) == seq![PieceView::Text(without_line_breaks(text@))],
        docx_run_format(r) == plain_format(),
{
    docx_rs::Run::new().add_text(text)
}

/// `docx_rs::Run::new().add_break(BreakType::TextWrapping)`: a run holding
/// one line break, with no formatting.
#[verifier::external_body]
fn run_break() -> (r: docx_rs::Run)
    ensures
        docx_run_pieces(r) == seq![PieceView::Break],
        docx_run_format(r) == plain_format(),
{
    docx_rs::Run::new().add_break(docx_rs::BreakType::TextWrapping)
}

/// `docx_rs::Run::bold`: the same run, bold.
#[verifier::external_body]
fn run_bold(r: docx_rs::Run) -> (o: docx_rs::Run)
    ensures
        docx_run_pieces(o) == docx_run_pieces(r),
        docx_run_format(o) == (RunFormat { bold: true, ..docx_run_format(r) }),
{
    r.bold()
}

/// `docx_rs::Run::italic`: the same run, italic.
#[verifier::external_body]
fn run_italic(r: docx_rs::Run) -> (o: docx_rs::Run)
    ensures
        docx_run_pieces(o) == docx_run_pieces(r),
        docx_run_format(o) == (RunFormat { italic: true, ..docx_run_format(r) }),
{
    r.italic()
}

/// `docx_rs::Run::strike`: the same run, struck through.
#[verifier::external_body]
fn run_strike(r: docx_rs::Run) -> (o: docx_rs::Run)
    ensures
        docx_run_pieces(o) == docx_run_pieces(r),
        docx_run_format(o) == (RunFormat { strike: true, ..docx_run_format(r) }),
{
    r.strike()
}

/// `docx_rs::Run::size`: the same run with the size, in half-points.
#[verifier::external_body]
fn run_size(r: docx_rs::Run, size: usize) -> (o: docx_rs::Run)
    ensures
        docx_run_pieces(o) == docx_run_pieces(r),
        docx_run_format(o) == (RunFormat { size: Some(size), ..docx_run_format(r) }),
{
    r.size(size)
}

/// `docx_rs::Run::fonts` with Courier New: the same run in that font.
#[verifier::external_body]
fn run_monospace(r: docx_rs::Run) -> (o: docx_rs::Run)
    ensures
        docx_run_pieces(o) == docx_run_pieces(r),
        docx_run_format(o) == (RunFormat { mono: true, ..docx_run_format(r) }),
{
    r.fonts(docx_rs::RunFonts::new().ascii("Courier New").hi_ansi("Courier New"))
}

/// `docx_rs::Paragraph::new`: a paragraph with no run and no layout.
#[verifier::external_body]
fn paragraph_new() -> (p: docx_rs::Paragraph)
    ensures
        docx_paragraph_runs(p) == Seq::<DocxRunForm>::empty(),
        docx_paragraph_layout(p) == (ParaLayout { spacing_before: None, spacing_after: None, indent_left: None }),
{
    docx_rs::Paragraph::new()
}

/// `docx_rs::Paragraph::add_run`: the run added last.
#[verifier::external_body]
fn paragraph_add_run(p: docx_rs::Paragraph, r: docx_rs::Run) -> (o: docx_rs::Paragraph)
    ensures
        docx_paragraph_runs(o) == docx_paragraph_runs(p).push((docx_run_pieces(r), docx_run_format(r))),
        docx_paragraph_layout(o) == docx_paragraph_layout(p),
{
    p.add_run(r)
}

/// `docx_rs::Paragraph::indent` with a left indent only.
#[verifier::external_body]
fn paragraph_indent_left(p: docx_rs::Paragraph, left: i32) -> (o: docx_rs::Paragraph)
    ensures
        docx_paragraph_runs(o) == docx_paragraph_runs(p),
        docx_paragraph_layout(o) == (ParaLayout { indent_left: Some(left), ..docx_paragraph_layout(p) }),
{
    p.indent(Some(left), None, None, None)
}

/// `docx_rs::Paragraph::line_spacing` with spacing before and after.
#[verifier::external_body]
fn paragraph_spacing(p: docx_rs::Paragraph, before: u32, after: u32) -> (o: docx_rs::Paragraph)
    ensures
        docx_paragraph_runs(o) == docx_paragraph_runs(p),
        docx_paragraph_layout(o) == (ParaLayout {
            spacing_before: Some(before),
            spacing_after: Some(after),
            ..docx_paragraph_layout(p)
        }),
{
    p.line_spacing(docx_rs::LineSpacing::new().before(before).after(after))
}

/// `docx_rs::Paragraph::line_spacing` with spacing before only.
#[verifier::external_body]
fn paragraph_spacing_before(p: docx_rs::Paragraph, before: u32) -> (o: docx_rs::Paragraph)
    ensures
        docx_paragraph_runs(o) == docx_paragraph_runs(p),
        docx_paragraph_layout(o) == (ParaLayout {
            spacing_before: Some(before),
            spacing_after: None,
            ..docx_paragraph_layout(p)
        }),
{
    p.line_spacing(docx_rs::LineSpacing::new().before(before))
}

/// `docx_rs::Paragraph::line_spacing` with spacing after only.
#[verifier::external_body]
fn paragraph_spacing_after(p: docx_rs::Paragraph, after: u32) -> (o: docx_rs::Paragraph)
    ensures
        docx_paragraph_runs(o) == docx_paragraph_runs(p),
        docx_paragraph_layout(o) == (ParaLayout {
            spacing_before: None,
            spacing_after: Some(after),
            ..docx_paragraph_layout(p)
        }),
{
    p.line_spacing(docx_rs::LineSpacing::new().after(after))
}

/// `docx_rs::Docx::new`: a document with no paragraph.
#[verifier::external_body]
fn docx_new() -> (d: docx_rs::Docx)
    ensures
        docx_document_paragraphs(d) == Seq::<DocxParaForm>::empty(),
{
    docx_rs::Docx::new()
}

/// `docx_rs::Docx::add_paragraph`: the paragraph added last.
#[verifier::external_body]
fn docx_add_paragraph(d: docx_rs::Docx, p: docx_rs::Paragraph) -> (o: docx_rs::Docx)
    ensures
        docx_document_paragraphs(o) == docx_document_paragraphs(d).push(
            (docx_paragraph_runs(p), docx_paragraph_layout(p)),
        ),
{
    d.add_paragraph(p)
}

/// Whether bytes begin as `docx-rs` writes a DOCX package: a ZIP local file
/// header (signature `PK\x03\x04`, 30 bytes) for its first entry, the
/// `word/` directory.
pub open spec fn docx_package_start(b: Seq<u8>) -> bool {
    &&& b.len() >= 35
    &&& b.take(4) == seq![0x50u8, 0x4bu8, 0x03u8, 0x04u8]
    &&& b.subrange(30, 35) == seq![0x77u8, 0x6fu8, 0x72u8, 0x64u8, 0x2fu8]
}

/// The paragraphs that the main document part (`word/document.xml`) of a
/// DOCX package holds, in order, each read as its runs and layout.
pub uninterp spec fn docx_package_paragraphs(b: Seq<u8>) -> Seq<DocxParaForm>;

/// `docx_rs::Docx::build` and `XMLDocx::pack` into memory: the bytes of
/// the DOCX package, or the ZIP writer's error message. The package is a
/// ZIP archive written from the start of an empty buffer, whose first entry
/// is the `word/` directory and whose `word/document.xml` holds the
/// document's paragraphs. The bytes themselves are not named: they carry
/// paragraph ids from a per-thread counter and may carry the time of
/// writing.
#[verifier::external_body]
fn docx_pack(d: docx_rs::Docx) -> (r: Result<Vec<u8>, String>)
    ensures
        r matches Ok(b) ==> docx_package_start(b@) && docx_package_paragraphs(b@) == docx_document_paragraphs(d),
{
    let mut buf = std::io::Cursor::new(Vec::new());
    d.build().pack(&mut buf).map_err(|e| e.to_string())?;
    Ok(buf.into_inner())
}

/// The form `docx-rs` holds a run of the model in.
pub open spec fn run_form(r: RunView) -> DocxRunForm {
    (
        seq![match r.piece {
            PieceView::Text(t) => PieceView::Text(without_line_breaks(t)),
            PieceView::Break => PieceView::Break,
        }],
        RunFormat { bold: r.bold, italic: r.italic, strike: r.strike, size: r.size, mono: r.mono },
    )
}

/// A left indent as written: values beyond the largest 32-bit value are
/// written as that value.
pub open spec fn written_indent(v: u128) -> i32 {
    if v <= 2147483647 { v as i32 } else { 2147483647i32 }
}

/// The form `docx-rs` holds a paragraph of the model in.
pub open spec fn para_form(p: ParaView) -> DocxParaForm {
    (
        p.runs.map_values(|r: RunView| run_form(r)),
        ParaLayout {
            spacing_before: p.spacing_before,
            spacing_after: p.spacing_after,
            indent_left: match p.indent_left {
                Some(v) => Some(written_indent(v)),
                None => None,
            },
        },
    )
}

/// The `docx-rs` run of a run of the model.
fn render_run(r: &DocRun) -> (o: docx_rs::Run)
    ensures
        (docx_run_pieces(o), docx_run_format(o)) == run_form(r@),
{
    let mut run = match &r.piece {
        RunPiece::Text(t) => run_text(t.as_str()),
        RunPiece::Break => run_break(),
    };
    if r.bold {
        run = run_bold(run);
    }
    if r.italic {
        run = run_italic(run);
    }
    if r.strike {
        run = run_strike(run);
    }
    if r.mono {
        run = run_monospace(run);
    }
    match r.size {
        Some(s) => run_size(run, s),
        None => run,
    }
}

/// The `docx-rs` paragraph of a paragraph of the model.
fn render_paragraph(p: &DocPara) -> (o: docx_rs::Paragraph)
    ensures
        (docx_paragraph_runs(o), docx_paragraph_layout(o)) == para_form(p@),
{
    let ghost forms = p@.runs.map_values(|r: RunView| run_form(r));
    let mut para = paragraph_new();
    let mut i: usize = 0;
    while i < p.runs.len()
        invariant
            i <= p.runs@.len(),
            forms == p@.runs.map_values(|r: RunView| run_form(r)),
            docx_paragraph_runs(para) == forms.take(i as int),
            docx_paragraph_layout(para) == (ParaLayout { spacing_before: None, spacing_after: None, indent_left: None }),
        decreases p.runs@.len() - i,
    {
        let run = render_run(&p.runs[i]);
        proof {
            assert(p@.runs[i as int] == p.runs@[i as int]@);
        }
        para = paragraph_add_run(para, run);
        assert(forms.take(i + 1) =~= forms.take(i as int).push(forms[i as int]));
        i = i + 1;
    }
    assert(forms.take(p.runs@.len() as int) =~= forms);
    match p.indent_left {
        Some(v) => {
            let left: i32 = if v <= 2147483647u128 { v as i32 } else { 2147483647i32 };
            para = paragraph_indent_left(para, left);
        },
        None => {},
    }
    match (p.spacing_before, p.spacing_after) {
        (Some(b), Some(a)) => paragraph_spacing(para, b, a),
        (Some(b), None) => paragraph_spacing_before(para, b),
        (None, Some(a)) => paragraph_spacing_after(para, a),
        (None, None) => para,
    }
}

/// The forms of a list of paragraphs of the model.
pub open spec fn document_form(paras: Seq<ParaView>) -> Seq<DocxParaForm> {
    paras.map_values(|p: ParaView| para_form(p))
}

/// The `docx-rs` document of Markdown text, with an optional title as first
/// paragraph: its paragraphs are those of `markdown_to_paragraphs`.
pub fn build_document(markdown: &str, title: Option<&str>) -> (d: docx_rs::Docx)
    ensures
        docx_document_paragraphs(d) == document_form(
            document_paras(
                match title {
                    Some(t) => Some(t@),
                    None => None,
                },
                markdown_events_of(markdown@),
            ),
        ),
{
    let paras = markdown_to_paragraphs(markdown, title);
    let ghost forms = document_form(para_views(paras@));
    let mut doc = docx_new();
    let mut i: usize = 0;
    while i < paras.len()
        invariant
            i <= paras@.len(),
            forms == document_form(para_views(paras@)),
            docx_document_paragraphs(doc) == forms.take(i as int),
        decreases paras@.len() - i,
    {
        let para = render_paragraph(&paras[i]);
        doc = docx_add_paragraph(doc, para);
        assert(forms.take(i + 1) =~= forms.take(i as int).push(forms[i as int]));
        i = i + 1;
    }
    assert(forms.take(paras@.len() as int) =~= forms);
    doc
}

/// Convert Markdown text to the bytes of a DOCX file, with an optional
/// title as first paragraph: the package of `build_document`, a ZIP
/// archive whose first entry is the `word/` directory. An error is the ZIP
/// writer's message.
pub fn markdown_to_docx(markdown: &str, title: Option<&str>) -> (r: Result<Vec<u8>, String>)
    ensures
        r matches Ok(b) ==> docx_package_start(b@) && docx_package_paragraphs(b@) == document_form(
            document_paras(
                match title {
                    Some(t) => Some(t@),
                    None => None,
                },
                markdown_events_of(markdown@),
            ),
        ),
{
    docx_pack(build_document(markdown, title))
}

} // verus!
