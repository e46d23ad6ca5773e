//! PowerPoint (PPTX) presentations.
//!
//! Each slide `ppt/slides/slide<n>.xml` becomes one page: a `# Slide <k>`
//! heading and the text of its paragraphs and shapes, one line each.

use vstd::prelude::*;
use crate::text::{push_chars, push_decimal, decimal, str_eq, trim, trim_start, trim_end, is_ws, trim_str, trim_chars, chars_eq, chars_of};
use crate::utils::InputFormat;
use crate::xml::{XmlEvent, XmlEventModel, event_views, xml_events, read_xml_events};
use crate::text::{has_prefix, strip_prefixes, strip_prefixes_chars, starts_with_at};
use crate::archive::{zip_open, zip_open_error, zip_entry_count, zip_source, entries_from, entry_search, list_entries, find_entry_text};
use crate::utils::split_whitespace_count;
use crate::converters::docx::{is_ascii_digit, digits_value};
use super::{DocumentConverter, ConversionResult, ConvertError, DocumentMetadata, pages_word_sum};
use super::txt::{heading_title, heading_title_of};

verus! {

/// PPTX converter.
pub struct PptxConverter;

impl PptxConverter {
    pub fn new() -> (r: Self) {
        PptxConverter
    }
}

impl DocumentConverter for PptxConverter {
    open spec fn spec_format(&self) -> InputFormat {
        InputFormat::Pptx
    }

    fn format(&self) -> (r: InputFormat) {
        InputFormat::Pptx
    }
}

/// The state of a slide's reading: the Markdown so far, whether text is
/// being read (inside `a:t`), the pending text, and whether the reading
/// stopped at an XML error.
pub struct SlideState {
    pub md: Seq<char>,
    pub in_text: bool,
    pub cur: Seq<char>,
    pub stopped: bool,
}

/// `# Slide <n>`.
pub open spec fn slide_heading(n: nat) -> Seq<char> {
    "# Slide "@ + decimal(n)
}

/// One XML event of a slide. Text inside `a:t` is collected when it is not
/// blank; the end of a paragraph (`a:p`) or of a shape (`p:sp`) puts the
/// collected text, trimmed, on a line of its own when it is not empty.
pub open spec fn slide_step(s: SlideState, e: XmlEventModel) -> SlideState {
    if s.stopped {
        s
    } else {
        match e {
            XmlEventModel::Start { name, .. } => if name == "t"@ {
                SlideState { in_text: true, ..s }
            } else {
                s
            },
            XmlEventModel::Text { text } => if s.in_text && trim(text).len() > 0 {
                SlideState { cur: s.cur + text, ..s }
            } else {
                s
            },
            XmlEventModel::End { name } => if name == "t"@ {
                SlideState { in_text: false, ..s }
            } else if name == "p"@ || name == "sp"@ {
                SlideState {
                    md: if trim(s.cur).len() > 0 {
                        s.md + trim(s.cur) + "\n"@
                    } else {
                        s.md
                    },
                    cur: Seq::empty(),
                    ..s
                }
            } else {
                s
            },
            XmlEventModel::Error => SlideState { stopped: true, ..s },
            _ => s,
        }
    }
}

/// The state after a sequence of events, from the slide's heading.
pub open spec fn slide_fold(es: Seq<XmlEventModel>, n: nat) -> SlideState
    decreases es.len(),
{
    if es.len() == 0 {
        SlideState { md: slide_heading(n) + "\n\n"@, in_text: false, cur: Seq::empty(), stopped: false }
    } else {
        slide_step(slide_fold(es.drop_last(), n), es.last())
    }
}

/// The Markdown of a slide's events: the heading and text lines, or the
/// heading and a placeholder when the slide has no text.
pub open spec fn slide_markdown(es: Seq<XmlEventModel>, n: nat) -> Seq<char> {
    let md = slide_fold(es, n).md;
    if trim(md) == slide_heading(n) {
        md + "*No text content on this slide*\n"@
    } else {
        md
    }
}

/// The Markdown of slide number `n` from its events.
pub fn slide_events_to_markdown(events: &Vec<XmlEvent>, n: usize) -> (r: String)
    ensures
        r@ == slide_markdown(event_views(events@), n as nat),
{
    let ghost evs = event_views(events@);
    let mut md = "# Slide ".to_owned();
    push_decimal(&mut md, n as u128);
    let heading = chars_of(md.as_str());
    md.append("\n\n");
    let mut in_text = false;
    let mut cur = String::new();
    let mut stopped = false;
    let mut i: usize = 0;
    assert(evs.take(0) =~= Seq::<XmlEventModel>::empty());
    while i < events.len()
        invariant
            i <= events@.len(),
            evs == event_views(events@),
            slide_fold(evs.take(i as int), n as nat) == (SlideState { md: md@, in_text, cur: cur@, stopped }),
        decreases events@.len() - i,
    {
        assert(evs.take(i + 1).drop_last() =~= evs.take(i as int));
        assert(evs[i as int] == events@[i as int]@);
        if !stopped {
            match &events[i] {
                XmlEvent::Start { name, .. } => {
                    if str_eq(name.as_str(), "t") {
                        in_text = true;
                    }
                },
                XmlEvent::Text { text } => {
                    if in_text {
                        let t = trim_str(text.as_str());
                        if t.len() > 0 {
                            cur.append(text.as_str());
                        }
                    }
                },
                XmlEvent::End { name } => {
                    if str_eq(name.as_str(), "t") {
                        in_text = false;
                    } else if str_eq(name.as_str(), "p") || str_eq(name.as_str(), "sp") {
                        let t = trim_str(cur.as_str());
                        if t.len() > 0 {
                            push_chars(&mut md, t.as_slice());
                            md.append("\n");
                        }
                        cur = String::new();
                    }
                },
                XmlEvent::Error => {
                    stopped = true;
                },
                _ => {},
            }
        }
        i = i + 1;
    }
    assert(evs.take(events@.len() as int) =~= evs);
    let whole = chars_of(md.as_str());
    let t = trim_chars(whole.as_slice());
    if chars_eq(t.as_slice(), heading.as_slice()) {
        md.append("*No text content on this slide*\n");
    }
    md
}

/// Convert the XML of slide number `slide_number` to Markdown.
pub fn parse_pptx_slide_xml(xml: &str, slide_number: usize) -> (r: String)
    ensures
        r@ == slide_markdown(xml_events(xml@), slide_number as nat),
{
    let events = read_xml_events(xml);
    slide_events_to_markdown(&events, slide_number)
}

// ── Laws of slide text ────────────────────────────────────────────────────

/// The events of a run of text: `<a:r><a:t>text</a:t></a:r>`.
pub open spec fn run_events(text: Seq<char>) -> Seq<XmlEventModel> {
    seq![
        XmlEventModel::Start { name: "r"@, attributes: Seq::empty() },
        XmlEventModel::Start { name: "t"@, attributes: Seq::empty() },
        XmlEventModel::Text { text },
        XmlEventModel::End { name: "t"@ },
        XmlEventModel::End { name: "r"@ },
    ]
}

/// The events of runs holding the given texts, in order.
pub open spec fn runs_events(runs: Seq<Seq<char>>) -> Seq<XmlEventModel>
    decreases runs.len(),
{
    if runs.len() == 0 {
        Seq::empty()
    } else {
        runs_events(runs.drop_last()) + run_events(runs.last())
    }
}

/// The events of a paragraph made of those runs: `<a:p>` runs `</a:p>`.
pub open spec fn text_paragraph_events(runs: Seq<Seq<char>>) -> Seq<XmlEventModel> {
    seq![XmlEventModel::Start { name: "p"@, attributes: Seq::empty() }] + runs_events(runs)
        + seq![XmlEventModel::End { name: "p"@ }]
}

/// The text of a paragraph's runs: the runs that are not blank, joined.
pub open spec fn runs_text(runs: Seq<Seq<char>>) -> Seq<char>
    decreases runs.len(),
{
    if runs.len() == 0 {
        Seq::empty()
    } else {
        runs_text(runs.drop_last()) + (if trim(runs.last()).len() > 0 {
            runs.last()
        } else {
            Seq::empty()
        })
    }
}

/// The events of paragraphs, each given by its runs, in order.
pub open spec fn paragraphs_events(paras: Seq<Seq<Seq<char>>>) -> Seq<XmlEventModel>
    decreases paras.len(),
{
    if paras.len() == 0 {
        Seq::empty()
    } else {
        paragraphs_events(paras.drop_last()) + text_paragraph_events(paras.last())
    }
}

/// The events of one shape (`<p:sp>`) holding those paragraphs.
pub open spec fn shape_events(paras: Seq<Seq<Seq<char>>>) -> Seq<XmlEventModel> {
    seq![XmlEventModel::Start { name: "sp"@, attributes: Seq::empty() }] + paragraphs_events(paras)
        + seq![XmlEventModel::End { name: "sp"@ }]
}

/// Each paragraph's text, trimmed, on a line of its own.
pub open spec fn text_lines(paras: Seq<Seq<Seq<char>>>) -> Seq<char>
    decreases paras.len(),
{
    if paras.len() == 0 {
        Seq::empty()
    } else {
        text_lines(paras.drop_last()) + trim(runs_text(paras.last())) + "\n"@
    }
}

proof fn lemma_slide_fold_push(es: Seq<XmlEventModel>, e: XmlEventModel, n: nat)
    ensures
        slide_fold(es.push(e), n) == slide_step(slide_fold(es, n), e),
{
    assert(es.push(e).drop_last() =~= es);
}

/// The element names that a slide's reading tells apart.
proof fn lemma_slide_names()
    ensures
        "t"@ != "p"@,
        "t"@ != "r"@,
        "t"@ != "sp"@,
        "r"@ != "p"@,
        "r"@ != "sp"@,
        "sp"@ != "p"@,
        "sp"@ != "t"@,
        "p"@ != "t"@,
{
    reveal_strlit("t");
    reveal_strlit("p");
    reveal_strlit("r");
    reveal_strlit("sp");
    assert("t"@[0] != "p"@[0]);
    assert("t"@[0] != "r"@[0]);
    assert("r"@[0] != "p"@[0]);
    assert("t"@.len() != "sp"@.len());
    assert("r"@.len() != "sp"@.len());
    assert("p"@.len() != "sp"@.len());
}

/// Reading a run adds its text to the pending text when it is not blank.
proof fn lemma_run(es: Seq<XmlEventModel>, x: Seq<char>, n: nat)
    requires
        !slide_fold(es, n).stopped,
        !slide_fold(es, n).in_text,
    ensures
        slide_fold(es + run_events(x), n) == (SlideState {
            md: slide_fold(es, n).md,
            in_text: false,
            cur: slide_fold(es, n).cur + (if trim(x).len() > 0 {
                x
            } else {
                Seq::empty()
            }),
            stopped: false,
        }),
{
    lemma_slide_names();
    let p = run_events(x);
    let e1 = es.push(p[0]);
    let e2 = e1.push(p[1]);
    let e3 = e2.push(p[2]);
    let e4 = e3.push(p[3]);
    let e5 = e4.push(p[4]);
    assert(es + p =~= e5);
    lemma_slide_fold_push(es, p[0], n);
    lemma_slide_fold_push(e1, p[1], n);
    lemma_slide_fold_push(e2, p[2], n);
    lemma_slide_fold_push(e3, p[3], n);
    lemma_slide_fold_push(e4, p[4], n);
    assert(slide_fold(es, n).cur + Seq::<char>::empty() =~= slide_fold(es, n).cur);
}

/// Reading runs adds the text of those that are not blank, in order.
proof fn lemma_runs(es: Seq<XmlEventModel>, runs: Seq<Seq<char>>, n: nat)
    requires
        !slide_fold(es, n).stopped,
        !slide_fold(es, n).in_text,
    ensures
        slide_fold(es + runs_events(runs), n) == (SlideState {
            md: slide_fold(es, n).md,
            in_text: false,
            cur: slide_fold(es, n).cur + runs_text(runs),
            stopped: false,
        }),
    decreases runs.len(),
{
    if runs.len() == 0 {
        assert(es + runs_events(runs) =~= es);
        assert(slide_fold(es, n).cur + runs_text(runs) =~= slide_fold(es, n).cur);
    } else {
        let init = runs.drop_last();
        lemma_runs(es, init, n);
        assert(es + runs_events(runs) =~= (es + runs_events(init)) + run_events(runs.last()));
        lemma_run(es + runs_events(init), runs.last(), n);
        let add = if trim(runs.last()).len() > 0 {
            runs.last()
        } else {
            Seq::empty()
        };
        assert(slide_fold(es, n).cur + runs_text(init) + add =~= slide_fold(es, n).cur + runs_text(runs));
    }
}

/// Reading a paragraph from a state with nothing pending adds its trimmed
/// text on a line of its own.
proof fn lemma_text_paragraph(es: Seq<XmlEventModel>, runs: Seq<Seq<char>>, n: nat)
    requires
        trim(runs_text(runs)).len() > 0,
        !slide_fold(es, n).stopped,
        !slide_fold(es, n).in_text,
        slide_fold(es, n).cur.len() == 0,
    ensures
        slide_fold(es + text_paragraph_events(runs), n) == (SlideState {
            md: slide_fold(es, n).md + trim(runs_text(runs)) + "\n"@,
            in_text: false,
            cur: Seq::empty(),
            stopped: false,
        }),
{
    lemma_slide_names();
    let start = XmlEventModel::Start { name: "p"@, attributes: Seq::empty() };
    let end = XmlEventModel::End { name: "p"@ };
    let e1 = es.push(start);
    lemma_slide_fold_push(es, start, n);
    lemma_runs(e1, runs, n);
    let e2 = e1 + runs_events(runs);
    lemma_slide_fold_push(e2, end, n);
    assert(es + text_paragraph_events(runs) =~= e2.push(end));
    assert(slide_fold(es, n).cur + runs_text(runs) =~= runs_text(runs));
}

proof fn lemma_shape_paragraphs(paras: Seq<Seq<Seq<char>>>, n: nat)
    requires
        forall|i: int| 0 <= i < paras.len() ==> trim(runs_text(#[trigger] paras[i])).len() > 0,
    ensures
        slide_fold(
            seq![XmlEventModel::Start { name: "sp"@, attributes: Seq::empty() }] + paragraphs_events(paras),
            n,
        ) == (SlideState {
            md: slide_heading(n) + "\n\n"@ + text_lines(paras),
            in_text: false,
            cur: Seq::empty(),
            stopped: false,
        }),
    decreases paras.len(),
{
    lemma_slide_names();
    let start = XmlEventModel::Start { name: "sp"@, attributes: Seq::empty() };
    if paras.len() == 0 {
        assert(seq![start] + paragraphs_events(paras) =~= Seq::<XmlEventModel>::empty().push(start));
        lemma_slide_fold_push(Seq::empty(), start, n);
        assert(slide_heading(n) + "\n\n"@ + text_lines(paras) =~= slide_heading(n) + "\n\n"@);
    } else {
        let init = paras.drop_last();
        assert forall|i: int| 0 <= i < init.len() implies trim(runs_text(#[trigger] init[i])).len() > 0 by {
            assert(init[i] == paras[i]);
        }
        assert(trim(runs_text(paras[paras.len() - 1])).len() > 0);
        lemma_shape_paragraphs(init, n);
        let before = seq![start] + paragraphs_events(init);
        assert(seq![start] + paragraphs_events(paras) =~= before + text_paragraph_events(paras.last()));
        lemma_text_paragraph(before, paras.last(), n);
        assert(slide_heading(n) + "\n\n"@ + text_lines(init) + trim(runs_text(paras.last())) + "\n"@
            =~= slide_heading(n) + "\n\n"@ + text_lines(paras));
    }
}

/// `trim` leaves no whitespace at the end.
proof fn lemma_trim_end_last(s: Seq<char>)
    ensures
        trim_end(s).len() > 0 ==> !is_ws(trim_end(s).last()),
    decreases s.len(),
{
    if s.len() > 0 && is_ws(s.last()) {
        lemma_trim_end_last(s.drop_last());
    }
}

/// Each paragraph of a shape ends its own line: a slide whose text box
/// holds paragraphs `p1..pk` (none of them blank) is written as its
/// heading, a blank line, then the text of each paragraph, trimmed and
/// followed by a line feed. A paragraph's text is its runs that are not
/// blank, joined in order. Two paragraphs' texts are never joined.
pub proof fn law_each_paragraph_on_its_own_line(paras: Seq<Seq<Seq<char>>>, n: nat)
    requires
        forall|i: int| 0 <= i < paras.len() ==> trim(runs_text(#[trigger] paras[i])).len() > 0,
    ensures
        slide_fold(shape_events(paras), n).md == slide_heading(n) + "\n\n"@ + text_lines(paras),
        paras.len() > 0 ==> slide_markdown(shape_events(paras), n) == slide_heading(n) + "\n\n"@ + text_lines(
            paras,
        ),
{
    lemma_slide_names();
    let start = XmlEventModel::Start { name: "sp"@, attributes: Seq::empty() };
    let end = XmlEventModel::End { name: "sp"@ };
    let before = seq![start] + paragraphs_events(paras);
    lemma_shape_paragraphs(paras, n);
    assert(shape_events(paras) =~= before.push(end));
    lemma_slide_fold_push(before, end, n);
    assert(trim(Seq::<char>::empty()) =~= Seq::<char>::empty());
    let md = slide_heading(n) + "\n\n"@ + text_lines(paras);
    if paras.len() > 0 {
        // The Markdown starts with `#` and ends with a line feed after a
        // character that is not whitespace, so trimming it keeps more than the heading.
        reveal_strlit("# Slide ");
        reveal_strlit("\n\n");
        reveal_strlit("\n");
        let last = trim(runs_text(paras.last()));
        let init_lines = text_lines(paras.drop_last());
        assert(text_lines(paras) == init_lines + last + "\n"@);
        assert(md[0] == '#');
        assert(!is_ws(md[0]));
        assert(trim_start(md) == md);
        lemma_trim_end_last(trim_start(runs_text(paras.last())));
        assert(!is_ws(last.last()));
        assert(md.last() == '\n');
        assert(md.drop_last().last() == last.last());
        assert(trim_end(md) == trim_end(md.drop_last()));
        assert(trim_end(md.drop_last()) == md.drop_last());
        assert(md.len() > slide_heading(n).len() + 2);
        assert(trim(md).len() > slide_heading(n).len());
    }
}

// ── Slide files ───────────────────────────────────────────────────────────

/// Whether `s` ends with `p`.
pub open spec fn has_suffix(s: Seq<char>, p: Seq<char>) -> bool {
    p.len() <= s.len() && s.skip(s.len() - p.len()) == p
}

/// `s` with every trailing copy of `p` removed (`str::trim_end_matches`).
pub open spec fn strip_suffixes(s: Seq<char>, p: Seq<char>) -> Seq<char>
    decreases s.len(),
{
    if p.len() > 0 && has_suffix(s, p) {
        strip_suffixes(s.take(s.len() - p.len()), p)
    } else {
        s
    }
}

/// Whether every character of `s` is an ASCII digit.
pub open spec fn all_digits(s: Seq<char>) -> bool {
    forall|i: int| 0 <= i < s.len() ==> is_ascii_digit(#[trigger] s[i])
}

/// `str::parse::<u32>`: an optional `+`, then one or more ASCII digits
/// whose value fits in 32 bits.
pub open spec fn parse_u32(s: Seq<char>) -> Option<nat> {
    let d = if s.len() > 0 && s[0] == '+' { s.drop_first() } else { s };
    if d.len() == 0 || !all_digits(d) || digits_value(d) > u32::MAX {
        None
    } else {
        Some(digits_value(d))
    }
}

/// Whether an archive entry is a slide: `ppt/slides/slide*.xml`.
pub open spec fn is_slide_file(name: Seq<char>) -> bool {
    has_prefix(name, "ppt/slides/slide"@) && has_suffix(name, ".xml"@)
}

/// The number a slide file is ordered by: the part between
/// `ppt/slides/slide` and `.xml` read as a number, 0 when it is not one.
pub open spec fn slide_key(name: Seq<char>) -> nat {
    match parse_u32(strip_suffixes(strip_prefixes(name, "ppt/slides/slide"@), ".xml"@)) {
        Some(v) => v,
        None => 0,
    }
}

/// The slide files among the entry names, in archive order, each with its key.
pub open spec fn keyed_slide_files(names: Seq<Seq<char>>) -> Seq<(nat, Seq<char>)>
    decreases names.len(),
{
    if names.len() == 0 {
        Seq::empty()
    } else {
        let rest = keyed_slide_files(names.drop_last());
        if is_slide_file(names.last()) {
            rest.push((slide_key(names.last()), names.last()))
        } else {
            rest
        }
    }
}

/// Insertion of `x` after every element whose key is not greater.
pub open spec fn insert_by_key(s: Seq<(nat, Seq<char>)>, x: (nat, Seq<char>)) -> Seq<(nat, Seq<char>)>
    decreases s.len(),
{
    if s.len() == 0 || s.last().0 <= x.0 {
        s.push(x)
    } else {
        insert_by_key(s.drop_last(), x).push(s.last())
    }
}

/// The stable sort by key (what `sort_by` on the keys gives).
pub open spec fn sort_by_key(s: Seq<(nat, Seq<char>)>) -> Seq<(nat, Seq<char>)>
    decreases s.len(),
{
    if s.len() == 0 {
        s
    } else {
        insert_by_key(sort_by_key(s.drop_last()), s.last())
    }
}

/// The view of a keyed list.
pub open spec fn keyed_views(v: Seq<(u32, String)>) -> Seq<(nat, Seq<char>)> {
    v.map_values(|e: (u32, String)| (e.0 as nat, e.1@))
}

proof fn lemma_insert_split(s: Seq<(nat, Seq<char>)>, x: (nat, Seq<char>), j: int)
    requires
        0 < j <= s.len(),
        s[j - 1].0 > x.0,
    ensures
        insert_by_key(s.take(j), x) + s.skip(j) == insert_by_key(s.take(j - 1), x) + s.skip(j - 1),
{
    assert(s.take(j).drop_last() =~= s.take(j - 1));
    assert(s.take(j).last() == s[j - 1]);
    assert(insert_by_key(s.take(j - 1), x).push(s[j - 1]) + s.skip(j) =~= insert_by_key(s.take(j - 1), x) + s.skip(j - 1));
}

/// Sort a keyed list by key, keeping equal keys in their order.
pub fn stable_sort_by_key(v: &Vec<(u32, String)>) -> (r: Vec<(u32, String)>)
    ensures
        keyed_views(r@) == sort_by_key(keyed_views(v@)),
{
    let ghost input = keyed_views(v@);
    let mut out: Vec<(u32, String)> = Vec::new();
    let mut i: usize = 0;
    while i < v.len()
        invariant
            i <= v@.len(),
            input == keyed_views(v@),
            keyed_views(out@) == sort_by_key(input.take(i as int)),
        decreases v@.len() - i,
    {
        assert(input.take(i + 1).drop_last() =~= input.take(i as int));
        let key = v[i].0;
        let name = v[i].1.clone();
        let ghost xv = (key as nat, name@);
        assert(input[i as int] == xv);
        let ghost ov = keyed_views(out@);
        let mut j: usize = out.len();
        assert(ov.take(j as int) =~= ov);
        assert(ov.skip(j as int) =~= Seq::<(nat, Seq<char>)>::empty());
        while j > 0 && out[j - 1].0 > key
            invariant
                j <= out@.len(),
                ov == keyed_views(out@),
                xv.0 == key as nat,
                insert_by_key(ov, xv) == insert_by_key(ov.take(j as int), xv) + ov.skip(j as int),
            decreases j,
        {
            proof {
                assert(ov[j - 1] == (out@[j - 1].0 as nat, out@[j - 1].1@));
                lemma_insert_split(ov, xv, j as int);
            }
            j = j - 1;
        }
        assert(insert_by_key(ov.take(j as int), xv) == ov.take(j as int).push(xv));
        out.insert(j, (key, name));
        assert(keyed_views(out@) =~= ov.take(j as int).push(xv) + ov.skip(j as int));
        i = i + 1;
    }
    assert(input.take(v@.len() as int) =~= input);
    out
}

/// Whether a keyed list is in nondecreasing key order.
pub open spec fn keys_sorted(s: Seq<(nat, Seq<char>)>) -> bool {
    forall|i: int, j: int| 0 <= i <= j < s.len() ==> s[i].0 <= s[j].0
}

proof fn lemma_insert_key_bound(s: Seq<(nat, Seq<char>)>, x: (nat, Seq<char>), b: nat)
    requires
        forall|i: int| 0 <= i < s.len() ==> s[i].0 <= b,
        x.0 <= b,
    ensures
        forall|k: int| 0 <= k < insert_by_key(s, x).len() ==> #[trigger] insert_by_key(s, x)[k].0 <= b,
    decreases s.len(),
{
    let r = insert_by_key(s, x);
    if s.len() > 0 && s.last().0 > x.0 {
        let t = s.drop_last();
        lemma_insert_key_bound(t, x, b);
        assert forall|k: int| 0 <= k < r.len() implies #[trigger] r[k].0 <= b by {
            if k < r.len() - 1 {
                assert(r[k] == insert_by_key(t, x)[k]);
            }
        }
    } else {
        assert forall|k: int| 0 <= k < r.len() implies #[trigger] r[k].0 <= b by {
            if k < r.len() - 1 {
                assert(r[k] == s[k]);
            }
        }
    }
}

proof fn lemma_insert_by_key(s: Seq<(nat, Seq<char>)>, x: (nat, Seq<char>))
    requires
        keys_sorted(s),
    ensures
        keys_sorted(insert_by_key(s, x)),
        insert_by_key(s, x).to_multiset() == s.to_multiset().insert(x),
    decreases s.len(),
{
    broadcast use vstd::seq_lib::group_to_multiset_ensures;
    if s.len() > 0 && s.last().0 > x.0 {
        let t = s.drop_last();
        lemma_insert_by_key(t, x);
        lemma_insert_key_bound(t, x, s.last().0);
        assert(s =~= t.push(s.last()));
        assert(insert_by_key(s, x).to_multiset() =~= s.to_multiset().insert(x));
    }
}

/// The slides are read in the order of their numbers: whatever order the
/// archive lists them in, the sorted list runs by nondecreasing slide number
/// and holds exactly the slide files it was given.
pub proof fn law_slides_in_number_order(files: Seq<(nat, Seq<char>)>)
    ensures
        keys_sorted(sort_by_key(files)),
        sort_by_key(files).to_multiset() == files.to_multiset(),
    decreases files.len(),
{
    broadcast use vstd::seq_lib::group_to_multiset_ensures;
    if files.len() > 0 {
        let t = files.drop_last();
        law_slides_in_number_order(t);
        lemma_insert_by_key(sort_by_key(t), files.last());
        assert(files =~= t.push(files.last()));
    }
}

/// `str::ends_with`.
fn ends_with_chars(s: &[char], p: &[char]) -> (r: bool)
    ensures
        r == has_suffix(s@, p@),
{
    if p.len() > s.len() {
        return false;
    }
    let r = starts_with_at(s, s.len() - p.len(), p);
    assert(s@.skip(s@.len() - p@.len()).take(p@.len() as int) =~= s@.skip(s@.len() - p@.len()));
    r
}

/// `str::trim_end_matches` for a non-empty pattern.
fn strip_suffixes_chars(s: &[char], p: &[char]) -> (r: Vec<char>)
    requires
        p@.len() > 0,
    ensures
        r@ == strip_suffixes(s@, p@),
{
    let mut end: usize = s.len();
    assert(s@.take(end as int) =~= s@);
    loop
        invariant
            end <= s@.len(),
            p@.len() > 0,
            strip_suffixes(s@, p@) == strip_suffixes(s@.take(end as int), p@),
        decreases end,
    {
        let head = crate::text::slice_chars(s, 0, end);
        assert(head@ =~= s@.take(end as int));
        if !ends_with_chars(head.as_slice(), p) {
            return head;
        }
        assert(s@.take(end as int).take(end - p@.len()) =~= s@.take(end - p@.len()));
        end = end - p.len();
    }
}

/// The value of a string of digits is at least that of any of its prefixes.
proof fn lemma_digits_prefix_bound(d: Seq<char>, k: int)
    requires
        all_digits(d),
        0 <= k <= d.len(),
    ensures
        digits_value(d.take(k)) <= digits_value(d),
    decreases d.len(),
{
    if k < d.len() {
        assert(all_digits(d.drop_last()));
        assert(d.drop_last().take(k) =~= d.take(k));
        lemma_digits_prefix_bound(d.drop_last(), k);
    } else {
        assert(d.take(k) =~= d);
    }
}

/// `str::parse::<u32>`.
fn parse_u32_chars(s: &[char]) -> (r: Option<u32>)
    ensures
        match r {
            Some(v) => parse_u32(s@) == Some(v as nat),
            None => parse_u32(s@) is None,
        },
{
    let start: usize = if s.len() > 0 && s[0] == '+' { 1 } else { 0 };
    let ghost d = if s@.len() > 0 && s@[0] == '+' { s@.drop_first() } else { s@ };
    assert(d =~= s@.skip(start as int));
    if start == s.len() {
        return None;
    }
    let mut value: u64 = 0;
    let mut i: usize = start;
    assert(s@.subrange(start as int, i as int) =~= Seq::<char>::empty());
    while i < s.len()
        invariant
            start <= i <= s@.len(),
            d == s@.skip(start as int),
            d == (if s@.len() > 0 && s@[0] == '+' { s@.drop_first() } else { s@ }),
            all_digits(s@.subrange(start as int, i as int)),
            value == digits_value(s@.subrange(start as int, i as int)),
            value <= u32::MAX,
        decreases s@.len() - i,
    {
        let c = s[i];
        let ghost pre = s@.subrange(start as int, i as int);
        assert(s@.subrange(start as int, i + 1) =~= pre.push(c));
        assert(s@.subrange(start as int, i + 1).drop_last() =~= pre);
        if !('0' <= c && c <= '9') {
            assert(d[i - start] == c);
            assert(!is_ascii_digit(d[i - start]));
            return None;
        }
        let next = value * 10 + ((c as u64) - ('0' as u64));
        if next > 4294967295u64 {
            proof {
                assert(d.take(i - start + 1) =~= pre.push(c));
                assert(digits_value(pre.push(c)) == value * 10 + ((c as nat) - ('0' as nat)));
                if all_digits(d) {
                    lemma_digits_prefix_bound(d, i - start + 1);
                }
            }
            return None;
        }
        value = next;
        i = i + 1;
    }
    assert(s@.subrange(start as int, s@.len() as int) =~= d);
    Some(value as u32)
}

/// The key that a slide file is ordered by (see `slide_key`).
fn slide_key_of(name: &str) -> (r: u32)
    ensures
        r as nat == slide_key(name@),
{
    proof {
        reveal_strlit("ppt/slides/slide");
        reveal_strlit(".xml");
    }
    let cs = chars_of(name);
    let prefix = chars_of("ppt/slides/slide");
    let suffix = chars_of(".xml");
    let a = strip_prefixes_chars(cs.as_slice(), prefix.as_slice());
    let b = strip_suffixes_chars(a.as_slice(), suffix.as_slice());
    match parse_u32_chars(b.as_slice()) {
        Some(v) => v,
        None => 0,
    }
}

/// The view of an entry listing as names.
pub open spec fn entry_names(entries: Seq<(String, u64)>) -> Seq<Seq<char>> {
    entries.map_values(|e: (String, u64)| e.0@)
}

/// The slide files among the entries, in archive order, each with its key.
pub fn slide_files(entries: &Vec<(String, u64)>) -> (r: Vec<(u32, String)>)
    ensures
        keyed_views(r@) == keyed_slide_files(entry_names(entries@)),
{
    proof {
        reveal_strlit("ppt/slides/slide");
        reveal_strlit(".xml");
    }
    let ghost names = entry_names(entries@);
    let prefix = chars_of("ppt/slides/slide");
    let suffix = chars_of(".xml");
    let mut out: Vec<(u32, String)> = Vec::new();
    let mut i: usize = 0;
    while i < entries.len()
        invariant
            i <= entries@.len(),
            names == entry_names(entries@),
            prefix@ == "ppt/slides/slide"@,
            suffix@ == ".xml"@,
            keyed_views(out@) == keyed_slide_files(names.take(i as int)),
        decreases entries@.len() - i,
    {
        assert(names.take(i + 1).drop_last() =~= names.take(i as int));
        assert(names.take(i + 1).last() == entries@[i as int].0@);
        let name = &entries[i].0;
        let cs = chars_of(name.as_str());
        assert(cs@.skip(0) =~= cs@);
        if starts_with_at(cs.as_slice(), 0, prefix.as_slice()) && ends_with_chars(cs.as_slice(), suffix.as_slice()) {
            let key = slide_key_of(name.as_str());
            let ghost before = keyed_views(out@);
            out.push((key, name.clone()));
            assert(keyed_views(out@) =~= before.push((key as nat, name@)));
        }
        i = i + 1;
    }
    assert(names.take(entries@.len() as int) =~= names);
    out
}

/// The page of a slide: its Markdown and label, when the slide's XML was
/// found and is not empty.
pub open spec fn slide_page(found: Option<Seq<char>>, n: nat) -> Seq<(Seq<char>, Seq<char>)> {
    match found {
        Some(xml) => if xml.len() > 0 {
            seq![(slide_markdown(xml_events(xml), n), "Slide "@ + decimal(n))]
        } else {
            Seq::empty()
        },
        None => Seq::empty(),
    }
}

/// The pages of the sorted slide files, numbered from 1 in that order; the
/// first slide that cannot be read ends the conversion with its error.
pub open spec fn slide_pages(data: Seq<u8>, files: Seq<(nat, Seq<char>)>) -> Result<Seq<(Seq<char>, Seq<char>)>, Seq<char>>
    decreases files.len(),
{
    if files.len() == 0 {
        Ok(Seq::empty())
    } else {
        match slide_pages(data, files.drop_last()) {
            Err(m) => Err(m),
            Ok(pages) => match entry_search(data, files.last().1, 0, zip_entry_count(data)) {
                Err(m) => Err(m),
                Ok(found) => Ok(pages + slide_page(found, files.len())),
            },
        }
    }
}

/// The views of a list of pages.
pub open spec fn page_views(pages: Seq<(String, String)>) -> Seq<(Seq<char>, Seq<char>)> {
    pages.map_values(|p: (String, String)| (p.0@, p.1@))
}

/// Total word count of pages given as views.
pub open spec fn page_words(pages: Seq<(Seq<char>, Seq<char>)>) -> nat
    decreases pages.len(),
{
    if pages.len() == 0 {
        0
    } else {
        page_words(pages.drop_last()) + split_whitespace_count(pages.last().0)
    }
}

proof fn lemma_page_words(pages: Seq<(String, String)>)
    ensures
        page_words(page_views(pages)) == pages_word_sum(pages),
    decreases pages.len(),
{
    if pages.len() > 0 {
        assert(page_views(pages).drop_last() =~= page_views(pages.drop_last()));
        lemma_page_words(pages.drop_last());
    }
}

proof fn lemma_slide_pages_err(data: Seq<u8>, fs: Seq<(nat, Seq<char>)>, k: int, m: Seq<char>)
    requires
        0 <= k <= fs.len(),
        slide_pages(data, fs.take(k)) == Err::<Seq<(Seq<char>, Seq<char>)>, Seq<char>>(m),
    ensures
        slide_pages(data, fs) == Err::<Seq<(Seq<char>, Seq<char>)>, Seq<char>>(m),
    decreases fs.len(),
{
    if k == fs.len() {
        assert(fs.take(k) =~= fs);
    } else {
        assert(fs.drop_last().take(k) =~= fs.take(k));
        lemma_slide_pages_err(data, fs.drop_last(), k, m);
    }
}

/// Read and convert the sorted slide files.
fn read_slides(
    a: &mut zip::ZipArchive<std::io::Cursor<Vec<u8>>>,
    files: &Vec<(u32, String)>,
) -> (r: Result<Vec<(String, String)>, String>)
    ensures
        zip_source(*final(a)) == zip_source(*old(a)),
        match r {
            Ok(pages) => slide_pages(zip_source(*old(a)), keyed_views(files@))
                == Ok::<Seq<(Seq<char>, Seq<char>)>, Seq<char>>(page_views(pages@)),
            Err(m) => slide_pages(zip_source(*old(a)), keyed_views(files@))
                == Err::<Seq<(Seq<char>, Seq<char>)>, Seq<char>>(m@),
        },
{
    let ghost data = zip_source(*a);
    let ghost fs = keyed_views(files@);
    let mut pages: Vec<(String, String)> = Vec::new();
    let mut i: usize = 0;
    assert(fs.take(0) =~= Seq::<(nat, Seq<char>)>::empty());
    assert(page_views(pages@) =~= Seq::<(Seq<char>, Seq<char>)>::empty());
    while i < files.len()
        invariant
            i <= files@.len(),
            fs == keyed_views(files@),
            zip_source(*a) == data,
            data == zip_source(*old(a)),
            slide_pages(data, fs.take(i as int)) == Ok::<Seq<(Seq<char>, Seq<char>)>, Seq<char>>(page_views(pages@)),
        decreases files@.len() - i,
    {
        assert(fs.take(i + 1).drop_last() =~= fs.take(i as int));
        assert(fs.take(i + 1).last().1 == files@[i as int].1@);
        let found = match find_entry_text(a, files[i].1.as_str()) {
            Ok(f) => f,
            Err(m) => {
                assert(slide_pages(data, fs.take(i + 1)) == Err::<Seq<(Seq<char>, Seq<char>)>, Seq<char>>(m@));
                proof {
                    lemma_slide_pages_err(data, fs, i + 1, m@);
                }
                assert(fs.take(fs.len() as int) =~= fs);
                return Err(m);
            },
        };
        let ghost before = page_views(pages@);
        let ghost fv = match &found {
            Some(x) => Some(x@),
            None => None,
        };
        match found {
            Some(xml) => {
                if xml.as_str().unicode_len() > 0 {
                    let md = parse_pptx_slide_xml(xml.as_str(), i + 1);
                    let mut label = "Slide ".to_owned();
                    push_decimal(&mut label, (i + 1) as u128);
                    pages.push((md, label));
                    assert(page_views(pages@) =~= before.push((md@, label@)));
                }
            },
            None => {},
        }
        assert(page_views(pages@) =~= before + slide_page(fv, (i + 1) as nat));
        i = i + 1;
    }
    assert(fs.take(files@.len() as int) =~= fs);
    Ok(pages)
}

/// The names of a listing of (name, size) entries.
pub open spec fn listing_names(es: Seq<(Seq<char>, u64)>) -> Seq<Seq<char>> {
    es.map_values(|e: (Seq<char>, u64)| e.0)
}

/// Whether `r` is the paged result for the given pages, title, format,
/// path and size, with the words of all pages counted.
pub open spec fn paged_result(
    r: ConversionResult,
    pages: Seq<(Seq<char>, Seq<char>)>,
    title: Option<Seq<char>>,
    format: InputFormat,
    path: Seq<char>,
    size: u64,
) -> bool {
    &&& r.content@.len() == pages.len()
    &&& forall|i: int|
        0 <= i < pages.len() ==> {
            &&& (#[trigger] r.content@[i]).page_number == i + 1
            &&& r.content@[i].data@ == pages[i].0
            &&& r.content@[i].label@ == pages[i].1
        }
    &&& match r.metadata.title {
        Some(t) => title == Some(t@),
        None => title is None,
    }
    &&& r.metadata.author is None
    &&& r.metadata.page_count == pages.len()
    &&& r.metadata.word_count == page_words(pages)
    &&& r.metadata.source_format == format
    &&& r.metadata.source_path@ == path
    &&& r.metadata.file_size_bytes == size
    &&& r.output_format == crate::utils::default_output_format()
}

/// The title of a presentation: the first `# ` heading of its first page.
pub open spec fn first_page_title(pages: Seq<(Seq<char>, Seq<char>)>) -> Option<Seq<char>> {
    if pages.len() > 0 {
        heading_title(pages[0].0)
    } else {
        None
    }
}

/// The pages of a PPTX file's bytes: one per slide file, in the order of
/// their numbers, or the ZIP reader's error.
pub open spec fn pptx_pages(data: Seq<u8>) -> Result<Seq<(Seq<char>, Seq<char>)>, Seq<char>> {
    match zip_open_error(data) {
        Some(m) => Err(m),
        None => match entries_from(data, 0, zip_entry_count(data)) {
            Err(m) => Err(m),
            Ok(entries) => slide_pages(data, sort_by_key(keyed_slide_files(listing_names(entries)))),
        },
    }
}

/// What converting a PPTX file's bytes gives.
pub open spec fn pptx_outcome(r: Result<ConversionResult, ConvertError>, path: Seq<char>, data: Seq<u8>, file_size: u64) -> bool {
    match pptx_pages(data) {
        Err(m) => r matches Err(ConvertError::Zip(msg)) && msg@ == m,
        Ok(pages) => if page_words(pages) > usize::MAX {
            r matches Err(ConvertError::Overflow)
        } else {
            r matches Ok(res) && paged_result(res, pages, first_page_title(pages), InputFormat::Pptx, path, file_size)
        },
    }
}

/// Convert a PPTX file, given its bytes.
pub fn extract_pptx_to_markdown(path: &str, data: &[u8], file_size: u64) -> (r: Result<ConversionResult, ConvertError>)
    ensures
        pptx_outcome(r, path@, data@, file_size),
{
    let mut archive = match zip_open(data) {
        Ok(a) => a,
        Err(m) => return Err(ConvertError::Zip(m)),
    };
    let entries = match list_entries(&mut archive) {
        Ok(e) => e,
        Err(m) => return Err(ConvertError::Zip(m)),
    };
    assert(entries@.map_values(|e: (String, u64)| (e.0@, e.1)).map_values(|e: (Seq<char>, u64)| e.0)
        =~= entry_names(entries@));
    let files = slide_files(&entries);
    let sorted = stable_sort_by_key(&files);
    let pages = match read_slides(&mut archive, &sorted) {
        Ok(p) => p,
        Err(m) => return Err(ConvertError::Zip(m)),
    };
    let ghost pv = page_views(pages@);
    let mut total: usize = 0;
    let mut i: usize = 0;
    while i < pages.len()
        invariant
            i <= pages@.len(),
            pv == page_views(pages@),
            pptx_pages(data@) == Ok::<Seq<(Seq<char>, Seq<char>)>, Seq<char>>(pv),
            total == page_words(pv.take(i as int)),
        decreases pages@.len() - i,
    {
        assert(pv.take(i + 1).drop_last() =~= pv.take(i as int));
        assert(pv.take(i + 1).last() == pv[i as int]);
        assert(pv[i as int].0 == pages@[i as int].0@);
        let words = crate::utils::count_words_accurate(pages[i].0.as_str());
        match total.checked_add(words) {
            Some(t) => total = t,
            None => {
                proof {
                    lemma_page_words_prefix(pv, i + 1);
                    assert(page_words(pv) > usize::MAX);
                }
                return Err(ConvertError::Overflow);
            },
        }
        i = i + 1;
    }
    assert(pv.take(pages@.len() as int) =~= pv);
    proof {
        lemma_page_words(pages@);
    }
    let title = if pages.len() > 0 {
        heading_title_of(pages[0].0.as_str())
    } else {
        None
    };
    let metadata = DocumentMetadata {
        title,
        author: None,
        page_count: 0,
        word_count: total,
        source_format: InputFormat::Pptx,
        source_path: path.to_owned(),
        file_size_bytes: file_size,
    };
    let r = ConversionResult::from_pages(pages, metadata);
    assert forall|i: int| 0 <= i < pv.len() implies {
        &&& (#[trigger] r.content@[i]).page_number == i + 1
        &&& r.content@[i].data@ == pv[i].0
        &&& r.content@[i].label@ == pv[i].1
    } by {
    }
    Ok(r)
}

proof fn lemma_page_words_prefix(pages: Seq<(Seq<char>, Seq<char>)>, k: int)
    requires
        0 <= k <= pages.len(),
    ensures
        page_words(pages.take(k)) <= page_words(pages),
    decreases pages.len(),
{
    if k < pages.len() {
        assert(pages.drop_last().take(k) =~= pages.take(k));
        lemma_page_words_prefix(pages.drop_last(), k);
    } else {
        assert(pages.take(k) =~= pages);
    }
}

} // verus!