//! Word (DOCX) documents.
//!
//! The body of a DOCX file is `word/document.xml`. Each paragraph (`w:p`)
//! becomes one Markdown paragraph: a heading when its style is
//! `Heading<n>`, bold or italic when one of its runs was, plain otherwise.

use vstd::prelude::*;
use crate::text::{push_char, push_chars, str_eq, trim, trim_str, has_prefix, starts_with_at, chars_of};
use crate::utils::InputFormat;
use crate::xml::{XmlEvent, XmlEventModel, event_views, attribute_views, xml_events, read_xml_events};
use crate::archive::{zip_open, zip_open_error, zip_entry_count, entry_search, find_entry_text};
use super::{DocumentConverter, ConversionResult, ConvertError};
use super::txt::{is_full_result, heading_title, result_with_heading_title};

verus! {

/// DOCX converter.
pub struct DocxConverter;

impl DocxConverter {
    pub fn new() -> (r: Self) {
        DocxConverter
    }
}

impl DocumentConverter for DocxConverter {
    open spec fn spec_format(&self) -> InputFormat {
        InputFormat::Docx
    }

    fn format(&self) -> (r: InputFormat) {
        InputFormat::Docx
    }
}

// ── Heading levels ────────────────────────────────────────────────────────

/// Whether `c` is one of `0`–`9`.
pub open spec fn is_ascii_digit(c: char) -> bool {
    '0' <= c && c <= '9'
}

/// The ASCII digits of `s`, in order.
pub open spec fn ascii_digits(s: Seq<char>) -> Seq<char>
    decreases s.len(),
{
    if s.len() == 0 {
        Seq::empty()
    } else if is_ascii_digit(s.last()) {
        ascii_digits(s.drop_last()).push(s.last())
    } else {
        ascii_digits(s.drop_last())
    }
}

/// The number that a string of ASCII digits writes in decimal.
pub open spec fn digits_value(ds: Seq<char>) -> nat
    decreases ds.len(),
{
    if ds.len() == 0 {
        0
    } else {
        digits_value(ds.drop_last()) * 10 + ((ds.last() as nat) - ('0' as nat)) as nat
    }
}

/// `str::parse::<u32>` on a string of ASCII digits: the value, or nothing
/// when the string is empty or the value does not fit in 32 bits.
pub open spec fn parse_u32_digits(ds: Seq<char>) -> Option<nat> {
    if ds.len() == 0 || digits_value(ds) > u32::MAX {
        None
    } else {
        Some(digits_value(ds))
    }
}

/// The heading level of a paragraph style value: its digits parsed as a
/// number (`Heading2` is 2).
pub open spec fn style_level(val: Seq<char>) -> Option<nat> {
    parse_u32_digits(ascii_digits(val))
}

/// The heading level after a `w:pStyle` element's attributes: each `val`
/// attribute whose value starts with `Heading` or `heading` sets it;
/// malformed attributes are skipped.
pub open spec fn style_heading(attrs: Seq<Option<(Seq<char>, Seq<char>)>>, h: Option<nat>) -> Option<nat>
    decreases attrs.len(),
{
    if attrs.len() == 0 {
        h
    } else {
        let before = style_heading(attrs.drop_last(), h);
        match attrs.last() {
            Some(kv) => if kv.0 == "val"@ && (has_prefix(kv.1, "Heading"@) || has_prefix(kv.1, "heading"@)) {
                style_level(kv.1)
            } else {
                before
            },
            None => before,
        }
    }
}

proof fn lemma_digits_value_grows(ds: Seq<char>, d: char)
    requires
        is_ascii_digit(d),
    ensures
        digits_value(ds.push(d)) >= digits_value(ds),
        digits_value(ds.push(d)) == digits_value(ds) * 10 + ((d as nat) - ('0' as nat)),
{
    assert(ds.push(d).drop_last() =~= ds);
}

/// The digits of `s` parsed as a `u32`.
fn parse_style_level(s: &str) -> (r: Option<u32>)
    ensures
        match r {
            Some(v) => style_level(s@) == Some(v as nat),
            None => style_level(s@) is None,
        },
{
    let cs = chars_of(s);
    let mut value: u64 = 0;
    let mut any = false;
    let mut overflow = false;
    let mut i: usize = 0;
    while i < cs.len()
        invariant
            i <= cs@.len(),
            cs@ == s@,
            any == (ascii_digits(cs@.take(i as int)).len() > 0),
            overflow ==> digits_value(ascii_digits(cs@.take(i as int))) > u32::MAX,
            !overflow ==> value == digits_value(ascii_digits(cs@.take(i as int))) && value <= u32::MAX,
        decreases cs@.len() - i,
    {
        let c = cs[i];
        assert(cs@.take(i + 1).drop_last() =~= cs@.take(i as int));
        assert(cs@.take(i + 1).last() == c);
        if '0' <= c && c <= '9' {
            let ghost prev = ascii_digits(cs@.take(i as int));
            proof {
                lemma_digits_value_grows(prev, c);
            }
            any = true;
            if !overflow {
                let d = (c as u64) - ('0' as u64);
                value = value * 10 + d;
                if value > 4294967295u64 {
                    overflow = true;
                }
            }
        }
        i = i + 1;
    }
    assert(cs@.take(cs@.len() as int) =~= cs@);
    if !any || overflow {
        None
    } else {
        Some(value as u32)
    }
}

// ── Paragraphs ────────────────────────────────────────────────────────────

/// The state of the DOCX reading: the Markdown so far, whether text is being
/// read (inside `w:t`), the current paragraph's text, whether a bold or an
/// italic run was seen in the paragraph so far, the heading level of the paragraph, and whether the
/// reading stopped at an XML error.
pub struct DocxState {
    pub md: Seq<char>,
    pub in_text: bool,
    pub cur: Seq<char>,
    pub bold: bool,
    pub italic: bool,
    pub heading: Option<nat>,
    pub stopped: bool,
}

/// The state before any event.
pub open spec fn docx_start() -> DocxState {
    DocxState {
        md: Seq::empty(),
        in_text: false,
        cur: Seq::empty(),
        bold: false,
        italic: false,
        heading: None,
        stopped: false,
    }
}

/// `level` hash characters.
pub open spec fn hashes(level: nat) -> Seq<char> {
    Seq::new(level, |i: int| '#')
}

/// The Markdown of a finished paragraph with trimmed text `t`: a heading
/// when the paragraph has a level, else bold, italic or plain.
pub open spec fn paragraph_markdown(t: Seq<char>, heading: Option<nat>, bold: bool, italic: bool) -> Seq<char> {
    match heading {
        Some(level) => hashes(level) + " "@ + t + "\n\n"@,
        None => if bold {
            "**"@ + t + "**\n\n"@
        } else if italic {
            "*"@ + t + "*\n\n"@
        } else {
            t + "\n\n"@
        },
    }
}

/// One XML event of `word/document.xml`.
pub open spec fn docx_step(s: DocxState, e: XmlEventModel) -> DocxState {
    if s.stopped {
        s
    } else {
        match e {
            XmlEventModel::Start { name, attributes } => if name == "p"@ {
                DocxState { cur: Seq::empty(), ..s }
            } else if name == "t"@ {
                DocxState { in_text: true, ..s }
            } else if name == "b"@ || name == "bCs"@ {
                DocxState { bold: true, ..s }
            } else if name == "i"@ || name == "iCs"@ {
                DocxState { italic: true, ..s }
            } else if name == "pStyle"@ {
                DocxState { heading: style_heading(attributes, s.heading), ..s }
            } else {
                s
            },
            XmlEventModel::Empty { name, attributes } => if name == "b"@ || name == "bCs"@ {
                DocxState { bold: true, ..s }
            } else if name == "i"@ || name == "iCs"@ {
                DocxState { italic: true, ..s }
            } else if name == "pStyle"@ {
                DocxState { heading: style_heading(attributes, s.heading), ..s }
            } else if name == "br"@ {
                DocxState { cur: s.cur.push('\n'), ..s }
            } else if name == "tab"@ {
                DocxState { cur: s.cur.push('\t'), ..s }
            } else {
                s
            },
            XmlEventModel::Text { text } => if s.in_text {
                DocxState { cur: s.cur + text, ..s }
            } else {
                s
            },
            XmlEventModel::End { name } => if name == "t"@ {
                DocxState { in_text: false, ..s }
            } else if name == "p"@ {
                let t = trim(s.cur);
                DocxState {
                    md: if t.len() > 0 {
                        s.md + paragraph_markdown(t, s.heading, s.bold, s.italic)
                    } else {
                        s.md
                    },
                    heading: None,
                    bold: false,
                    italic: false,
                    ..s
                }
            } else {
                s
            },
            XmlEventModel::Error => DocxState { stopped: true, ..s },
            XmlEventModel::Other => s,
        }
    }
}

/// The state after a sequence of events.
pub open spec fn docx_fold(es: Seq<XmlEventModel>) -> DocxState
    decreases es.len(),
{
    if es.len() == 0 {
        docx_start()
    } else {
        docx_step(docx_fold(es.drop_last()), es.last())
    }
}

/// The Markdown of `word/document.xml`.
pub open spec fn docx_markdown(xml: Seq<char>) -> Seq<char> {
    docx_fold(xml_events(xml)).md
}

// ── Laws of paragraphs ────────────────────────────────────────────────────

/// Whether an event ends a paragraph (`</w:p>`).
pub open spec fn is_paragraph_end(e: XmlEventModel) -> bool {
    e matches XmlEventModel::End { name } && name == "p"@
}

/// Whether an event starts a paragraph (`<w:p>`).
pub open spec fn is_paragraph_start(e: XmlEventModel) -> bool {
    e matches XmlEventModel::Start { name, .. } && name == "p"@
}

/// Whether none of the events is an XML error.
pub open spec fn no_errors(es: Seq<XmlEventModel>) -> bool {
    forall|i: int| 0 <= i < es.len() ==> !(#[trigger] es[i] is Error)
}

/// Whether a `w:t` element is open after the events: the last start or end
/// of a `w:t` among them is a start.
pub open spec fn text_open(es: Seq<XmlEventModel>) -> bool
    decreases es.len(),
{
    if es.len() == 0 {
        false
    } else {
        match es.last() {
            XmlEventModel::Start { name, .. } => if name == "t"@ {
                true
            } else {
                text_open(es.drop_last())
            },
            XmlEventModel::End { name } => if name == "t"@ {
                false
            } else {
                text_open(es.drop_last())
            },
            _ => text_open(es.drop_last()),
        }
    }
}

/// The text that events inside a paragraph carry: the character data inside
/// `w:t` elements, a line feed for each `w:br` and a tab for each `w:tab`.
pub open spec fn paragraph_text(es: Seq<XmlEventModel>) -> Seq<char>
    decreases es.len(),
{
    if es.len() == 0 {
        Seq::empty()
    } else {
        let before = paragraph_text(es.drop_last());
        match es.last() {
            XmlEventModel::Text { text } => if text_open(es.drop_last()) {
                before + text
            } else {
                before
            },
            XmlEventModel::Empty { name, .. } => if name == "br"@ {
                before.push('\n')
            } else if name == "tab"@ {
                before.push('\t')
            } else {
                before
            },
            _ => before,
        }
    }
}

/// Whether an event starts or ends a paragraph, sets a paragraph style or
/// is an XML error.
pub open spec fn breaks_paragraph(e: XmlEventModel) -> bool {
    match e {
        XmlEventModel::Start { name, .. } => name == "p"@ || name == "pStyle"@,
        XmlEventModel::Empty { name, .. } => name == "pStyle"@,
        XmlEventModel::End { name } => name == "p"@,
        XmlEventModel::Error => true,
        _ => false,
    }
}

/// Whether an event is a bold mark (`w:b` or `w:bCs`).
pub open spec fn is_bold_mark(e: XmlEventModel) -> bool {
    match e {
        XmlEventModel::Start { name, .. } => name == "b"@ || name == "bCs"@,
        XmlEventModel::Empty { name, .. } => name == "b"@ || name == "bCs"@,
        _ => false,
    }
}

/// Whether an event is an italic mark (`w:i` or `w:iCs`).
pub open spec fn is_italic_mark(e: XmlEventModel) -> bool {
    match e {
        XmlEventModel::Start { name, .. } => name == "i"@ || name == "iCs"@,
        XmlEventModel::Empty { name, .. } => name == "i"@ || name == "iCs"@,
        _ => false,
    }
}

/// Whether some event is a bold mark.
pub open spec fn marks_bold(es: Seq<XmlEventModel>) -> bool {
    exists|i: int| 0 <= i < es.len() && #[trigger] is_bold_mark(es[i])
}

/// Whether some event is an italic mark.
pub open spec fn marks_italic(es: Seq<XmlEventModel>) -> bool {
    exists|i: int| 0 <= i < es.len() && #[trigger] is_italic_mark(es[i])
}

/// The element names that the reading of a document tells apart.
proof fn lemma_docx_names()
    ensures
        "p"@.len() == 1 && "p"@[0] == 'p',
        "t"@.len() == 1 && "t"@[0] == 't',
        "b"@.len() == 1 && "b"@[0] == 'b',
        "i"@.len() == 1 && "i"@[0] == 'i',
        "br"@.len() == 2 && "br"@[0] == 'b',
        "bCs"@.len() == 3 && "bCs"@[0] == 'b',
        "iCs"@.len() == 3 && "iCs"@[0] == 'i',
        "tab"@.len() == 3 && "tab"@[0] == 't',
        "pStyle"@.len() == 6,
        "pPr"@.len() == 3 && "pPr"@[0] == 'p',
{
    reveal_strlit("pPr");
    reveal_strlit("p");
    reveal_strlit("t");
    reveal_strlit("b");
    reveal_strlit("i");
    reveal_strlit("br");
    reveal_strlit("bCs");
    reveal_strlit("iCs");
    reveal_strlit("tab");
    reveal_strlit("pStyle");
}

/// Whether a mark occurs splits at the last event.
proof fn lemma_marks_last(es: Seq<XmlEventModel>)
    requires
        es.len() > 0,
    ensures
        marks_bold(es) == (marks_bold(es.drop_last()) || is_bold_mark(es.last())),
        marks_italic(es) == (marks_italic(es.drop_last()) || is_italic_mark(es.last())),
{
    let init = es.drop_last();
    if marks_bold(es) {
        let i = choose|i: int| 0 <= i < es.len() && #[trigger] is_bold_mark(es[i]);
        if i < init.len() {
            assert(is_bold_mark(init[i]));
        }
    }
    if marks_bold(init) {
        let i = choose|i: int| 0 <= i < init.len() && #[trigger] is_bold_mark(init[i]);
        assert(is_bold_mark(es[i]));
    }
    if is_bold_mark(es.last()) {
        assert(is_bold_mark(es[es.len() - 1]));
    }
    if marks_italic(es) {
        let i = choose|i: int| 0 <= i < es.len() && #[trigger] is_italic_mark(es[i]);
        if i < init.len() {
            assert(is_italic_mark(init[i]));
        }
    }
    if marks_italic(init) {
        let i = choose|i: int| 0 <= i < init.len() && #[trigger] is_italic_mark(init[i]);
        assert(is_italic_mark(es[i]));
    }
    if is_italic_mark(es.last()) {
        assert(is_italic_mark(es[es.len() - 1]));
    }
}

proof fn lemma_fold_push(es: Seq<XmlEventModel>, e: XmlEventModel)
    ensures
        docx_fold(es.push(e)) == docx_step(docx_fold(es), e),
{
    assert(es.push(e).drop_last() =~= es);
}

/// Without errors the reading never stops, and a text element is open
/// exactly when the events leave one open.
proof fn lemma_fold_no_errors(es: Seq<XmlEventModel>)
    requires
        no_errors(es),
    ensures
        !docx_fold(es).stopped,
        docx_fold(es).in_text == text_open(es),
    decreases es.len(),
{
    lemma_docx_names();
    if es.len() > 0 {
        let init = es.drop_last();
        assert forall|i: int| 0 <= i < init.len() implies !(#[trigger] init[i] is Error) by {
            assert(init[i] == es[i]);
        }
        assert(!(es[es.len() - 1] is Error));
        lemma_fold_no_errors(init);
        assert(es =~= init.push(es.last()));
        lemma_fold_push(init, es.last());

    }
}

/// The state when a paragraph's text begins, with heading level `h`.
pub open spec fn paragraph_begun(h: Option<nat>) -> DocxState {
    DocxState {
        md: Seq::empty(),
        in_text: false,
        cur: Seq::empty(),
        bold: false,
        italic: false,
        heading: h,
        stopped: false,
    }
}

/// The state after the start of a paragraph and then events that neither
/// end the paragraph nor set its style.
proof fn lemma_paragraph_state(head: Seq<XmlEventModel>, h: Option<nat>, inner: Seq<XmlEventModel>)
    requires
        docx_fold(head) == paragraph_begun(h),
        forall|i: int| 0 <= i < inner.len() ==> !breaks_paragraph(#[trigger] inner[i]),
    ensures
        docx_fold(head + inner) == (DocxState {
            md: Seq::empty(),
            in_text: text_open(inner),
            cur: paragraph_text(inner),
            bold: marks_bold(inner),
            italic: marks_italic(inner),
            heading: h,
            stopped: false,
        }),
    decreases inner.len(),
{
    lemma_docx_names();
    if inner.len() == 0 {
        assert(head + inner =~= head);
    } else {
        let init = inner.drop_last();
        assert forall|i: int| 0 <= i < init.len() implies !breaks_paragraph(#[trigger] init[i]) by {
            assert(init[i] == inner[i]);
        }
        assert(!breaks_paragraph(inner[inner.len() - 1]));
        lemma_paragraph_state(head, h, init);
        lemma_marks_last(inner);
        assert(head + inner =~= (head + init).push(inner.last()));
        lemma_fold_push(head + init, inner.last());
    }
}

/// The state right after `<w:p>`.
proof fn lemma_paragraph_start(attrs: Seq<Option<(Seq<char>, Seq<char>)>>)
    ensures
        docx_fold(seq![XmlEventModel::Start { name: "p"@, attributes: attrs }]) == paragraph_begun(None),
{
    let start = XmlEventModel::Start { name: "p"@, attributes: attrs };
    assert(seq![start] =~= Seq::<XmlEventModel>::empty().push(start));
    lemma_fold_push(Seq::empty(), start);
}

/// A step does not look at the Markdown already written: written after
/// more Markdown, it adds the same.
proof fn lemma_step_after_more(s: DocxState, m: Seq<char>, e: XmlEventModel)
    ensures
        docx_step(DocxState { md: m + s.md, ..s }, e) == (DocxState { md: m + docx_step(s, e).md, ..docx_step(s, e) }),
{
    if !s.stopped {
        if let XmlEventModel::End { name } = e {
            if name != "t"@ && name == "p"@ {
                let t = trim(s.cur);
                let add = paragraph_markdown(t, s.heading, s.bold, s.italic);
                assert((m + s.md) + add =~= m + (s.md + add));
            }
        }
    }
}

/// The state that reading resumes from after a finished paragraph.
proof fn lemma_between_paragraphs(pre: Seq<XmlEventModel>)
    requires
        pre.len() == 0 || is_paragraph_end(pre.last()),
        no_errors(pre),
        !text_open(pre),
    ensures
        !docx_fold(pre).stopped,
        !docx_fold(pre).in_text,
        !docx_fold(pre).bold,
        !docx_fold(pre).italic,
        docx_fold(pre).heading is None,
{
    lemma_docx_names();
    lemma_fold_no_errors(pre);
    if pre.len() > 0 {
        let init = pre.drop_last();
        assert forall|i: int| 0 <= i < init.len() implies !(#[trigger] init[i] is Error) by {
            assert(init[i] == pre[i]);
        }
        lemma_fold_no_errors(init);
        assert(pre =~= init.push(pre.last()));
        lemma_fold_push(init, pre.last());
    }
}

proof fn lemma_read_from_paragraph(pre: Seq<XmlEventModel>, q: Seq<XmlEventModel>)
    requires
        pre.len() == 0 || is_paragraph_end(pre.last()),
        no_errors(pre),
        !text_open(pre),
        q.len() > 0,
        is_paragraph_start(q[0]),
    ensures
        docx_fold(pre + q) == (DocxState { md: docx_fold(pre).md + docx_fold(q).md, ..docx_fold(q) }),
    decreases q.len(),
{
    lemma_between_paragraphs(pre);
    if q.len() == 1 {
        assert(pre + q =~= pre.push(q[0]));
        lemma_fold_push(pre, q[0]);
        assert(q =~= Seq::<XmlEventModel>::empty().push(q[0]));
        lemma_fold_push(Seq::empty(), q[0]);
        assert(docx_fold(pre).md + Seq::<char>::empty() =~= docx_fold(pre).md);
    } else {
        let init = q.drop_last();
        assert(init[0] == q[0]);
        lemma_read_from_paragraph(pre, init);
        assert(pre + q =~= (pre + init).push(q.last()));
        lemma_fold_push(pre + init, q.last());
        assert(q =~= init.push(q.last()));
        lemma_fold_push(init, q.last());
        lemma_step_after_more(docx_fold(init), docx_fold(pre).md, q.last());
    }
}

/// Paragraphs are read independently: after a finished paragraph (with no
/// XML error and no text element left open), the Markdown of what follows
/// from a `<w:p>` on is the same as if it stood alone, and is appended to the
/// Markdown so far. Bold, italic and heading state never carries over from
/// one paragraph to the next.
pub proof fn law_paragraphs_read_independently(pre: Seq<XmlEventModel>, q: Seq<XmlEventModel>)
    requires
        pre.len() == 0 || is_paragraph_end(pre.last()),
        no_errors(pre),
        !text_open(pre),
        q.len() > 0,
        is_paragraph_start(q[0]),
    ensures
        docx_fold(pre + q).md == docx_fold(pre).md + docx_fold(q).md,
{
    lemma_read_from_paragraph(pre, q);
}

/// A paragraph without a style is written from its own elements alone,
/// whatever paragraphs precede it: its text, trimmed, as `**text**` when
/// some element of it is bold (`w:b`, `w:bCs`), else as `*text*` when one is
/// italic (`w:i`, `w:iCs`), else as it is; then a blank line. A paragraph
/// whose trimmed text is empty writes nothing.
pub proof fn law_paragraph_markdown(
    pre: Seq<XmlEventModel>,
    attrs: Seq<Option<(Seq<char>, Seq<char>)>>,
    inner: Seq<XmlEventModel>,
)
    requires
        pre.len() == 0 || is_paragraph_end(pre.last()),
        no_errors(pre),
        !text_open(pre),
        forall|i: int| 0 <= i < inner.len() ==> !breaks_paragraph(#[trigger] inner[i]),
    ensures
        ({
            let t = trim(paragraph_text(inner));
            docx_fold(
                pre + (seq![XmlEventModel::Start { name: "p"@, attributes: attrs }] + inner).push(
                    XmlEventModel::End { name: "p"@ },
                ),
            ).md == docx_fold(pre).md + (if t.len() == 0 {
                Seq::empty()
            } else if marks_bold(inner) {
                "**"@ + t + "**\n\n"@
            } else if marks_italic(inner) {
                "*"@ + t + "*\n\n"@
            } else {
                t + "\n\n"@
            })
        }),
{
    let start = XmlEventModel::Start { name: "p"@, attributes: attrs };
    let end = XmlEventModel::End { name: "p"@ };
    let body = seq![start] + inner;
    let q = body.push(end);
    assert(q[0] == start);
    lemma_paragraph_start(attrs);
    lemma_paragraph_state(seq![start], None, inner);
    lemma_fold_push(body, end);
    lemma_docx_names();
    let t = trim(paragraph_text(inner));
    let m = paragraph_markdown(t, None, marks_bold(inner), marks_italic(inner));
    assert(Seq::<char>::empty() + m =~= m);
    law_paragraphs_read_independently(pre, q);
}

/// The digits of a text that ends in digits are those of its beginning
/// followed by them.
proof fn lemma_ascii_digits_append(a: Seq<char>, d: Seq<char>)
    requires
        forall|i: int| 0 <= i < d.len() ==> is_ascii_digit(#[trigger] d[i]),
    ensures
        ascii_digits(a + d) == ascii_digits(a) + d,
    decreases d.len(),
{
    if d.len() == 0 {
        assert(a + d =~= a);
        assert(ascii_digits(a) + d =~= ascii_digits(a));
    } else {
        let init = d.drop_last();
        assert forall|i: int| 0 <= i < init.len() implies is_ascii_digit(#[trigger] init[i]) by {
            assert(init[i] == d[i]);
        }
        assert(is_ascii_digit(d[d.len() - 1]));
        lemma_ascii_digits_append(a, init);
        assert((a + d).drop_last() =~= a + init);
        assert((a + d).last() == d.last());
        assert((ascii_digits(a) + init).push(d.last()) =~= ascii_digits(a) + d);
    }
}

/// A text without digits has none.
proof fn lemma_no_ascii_digits(a: Seq<char>)
    requires
        forall|i: int| 0 <= i < a.len() ==> !is_ascii_digit(#[trigger] a[i]),
    ensures
        ascii_digits(a) == Seq::<char>::empty(),
    decreases a.len(),
{
    if a.len() > 0 {
        let init = a.drop_last();
        assert forall|i: int| 0 <= i < init.len() implies !is_ascii_digit(#[trigger] init[i]) by {
            assert(init[i] == a[i]);
        }
        assert(!is_ascii_digit(a[a.len() - 1]));
        lemma_no_ascii_digits(init);
    }
}

/// The attributes of `<w:pStyle w:val="Heading<digits>"/>`.
pub open spec fn heading_style_attributes(digits: Seq<char>) -> Seq<Option<(Seq<char>, Seq<char>)>> {
    seq![Some(("val"@, "Heading"@ + digits))]
}

/// The events of a paragraph whose properties give it the style
/// `Heading<digits>`, followed by the events `inner`:
/// `<w:p><w:pPr><w:pStyle w:val="Heading<digits>"/></w:pPr>` ... `</w:p>`.
pub open spec fn heading_paragraph_events(digits: Seq<char>, inner: Seq<XmlEventModel>) -> Seq<XmlEventModel> {
    seq![
        XmlEventModel::Start { name: "p"@, attributes: Seq::empty() },
        XmlEventModel::Start { name: "pPr"@, attributes: Seq::empty() },
        XmlEventModel::Empty { name: "pStyle"@, attributes: heading_style_attributes(digits) },
        XmlEventModel::End { name: "pPr"@ },
    ] + inner + seq![XmlEventModel::End { name: "p"@ }]
}

/// A paragraph styled `Heading<n>` is written as a Markdown heading of
/// level `n`: `n` hash characters, a space, its trimmed text and a blank
/// line, whatever bold or italic marks it holds and whatever paragraphs
/// precede it (nothing when its trimmed text is empty).
pub proof fn law_heading_paragraph(pre: Seq<XmlEventModel>, digits: Seq<char>, inner: Seq<XmlEventModel>)
    requires
        pre.len() == 0 || is_paragraph_end(pre.last()),
        no_errors(pre),
        !text_open(pre),
        digits.len() > 0,
        forall|i: int| 0 <= i < digits.len() ==> is_ascii_digit(#[trigger] digits[i]),
        digits_value(digits) <= u32::MAX,
        forall|i: int| 0 <= i < inner.len() ==> !breaks_paragraph(#[trigger] inner[i]),
    ensures
        ({
            let t = trim(paragraph_text(inner));
            docx_fold(pre + heading_paragraph_events(digits, inner)).md == docx_fold(pre).md + (if t.len() == 0 {
                Seq::empty()
            } else {
                Seq::new(digits_value(digits), |i: int| '#') + " "@ + t + "\n\n"@
            })
        }),
{
    lemma_docx_names();
    reveal_strlit("Heading");
    reveal_strlit("heading");
    reveal_strlit("val");
    let n = digits_value(digits);
    let attrs = heading_style_attributes(digits);
    let e0 = XmlEventModel::Start { name: "p"@, attributes: Seq::empty() };
    let e1 = XmlEventModel::Start { name: "pPr"@, attributes: Seq::empty() };
    let e2 = XmlEventModel::Empty { name: "pStyle"@, attributes: attrs };
    let e3 = XmlEventModel::End { name: "pPr"@ };
    let end = XmlEventModel::End { name: "p"@ };
    // The style value's level.
    let v = "Heading"@ + digits;
    assert forall|i: int| 0 <= i < "Heading"@.len() implies !is_ascii_digit(#[trigger] "Heading"@[i]) by {}
    lemma_no_ascii_digits("Heading"@);
    lemma_ascii_digits_append("Heading"@, digits);
    assert(Seq::<char>::empty() + digits =~= digits);
    assert(v.take(7) =~= "Heading"@);
    assert(has_prefix(v, "Heading"@));
    assert(attrs.drop_last() =~= Seq::<Option<(Seq<char>, Seq<char>)>>::empty());
    assert(style_heading(attrs, None) == Some(n));
    // The paragraph's start and properties.
    lemma_paragraph_start(Seq::empty());
    let h1 = seq![e0];
    lemma_fold_push(h1, e1);
    let h2 = h1.push(e1);
    lemma_fold_push(h2, e2);
    let h3 = h2.push(e2);
    lemma_fold_push(h3, e3);
    let head = h3.push(e3);
    assert(docx_fold(head) == paragraph_begun(Some(n)));
    lemma_paragraph_state(head, Some(n), inner);
    let body = head + inner;
    lemma_fold_push(body, end);
    let q = body.push(end);
    assert(q =~= heading_paragraph_events(digits, inner));
    assert(q[0] == e0);
    let t = trim(paragraph_text(inner));
    let m = paragraph_markdown(t, Some(n), marks_bold(inner), marks_italic(inner));
    assert(Seq::<char>::empty() + m =~= m);
    assert(hashes(n) =~= Seq::new(n, |i: int| '#'));
    law_paragraphs_read_independently(pre, q);
}

/// The optional level as a mathematical value.
pub open spec fn level_view(h: Option<u32>) -> Option<nat> {
    match h {
        Some(v) => Some(v as nat),
        None => None,
    }
}

/// The heading level after a `w:pStyle` element's attributes.
fn pstyle_heading(attrs: &Vec<Option<(String, String)>>, h: Option<u32>) -> (r: Option<u32>)
    ensures
        level_view(r) == style_heading(attribute_views(attrs@), level_view(h)),
{
    let ghost av = attribute_views(attrs@);
    let mut cur = h;
    let mut i: usize = 0;
    while i < attrs.len()
        invariant
            i <= attrs@.len(),
            av == attribute_views(attrs@),
            level_view(cur) == style_heading(av.take(i as int), level_view(h)),
        decreases attrs@.len() - i,
    {
        assert(av.take(i + 1).drop_last() =~= av.take(i as int));
        assert(av.take(i + 1).last() == av[i as int]);
        match &attrs[i] {
            Some(kv) => {
                let key = &kv.0;
                let val = &kv.1;
                if str_eq(key.as_str(), "val") {
                    let vc = chars_of(val.as_str());
                    let h1 = chars_of("Heading");
                    let h2 = chars_of("heading");
                    assert(vc@.skip(0) =~= vc@);
                    if starts_with_at(vc.as_slice(), 0, h1.as_slice()) || starts_with_at(vc.as_slice(), 0, h2.as_slice()) {
                        cur = parse_style_level(val.as_str());
                    }
                }
            },
            None => {},
        }
        i = i + 1;
    }
    assert(av.take(attrs@.len() as int) =~= av);
    cur
}

/// Whether a name is one of two literals.
fn is_either(name: &String, a: &str, b: &str) -> (r: bool)
    ensures
        r == (name@ == a@ || name@ == b@),
{
    str_eq(name.as_str(), a) || str_eq(name.as_str(), b)
}

/// The Markdown of the events of `word/document.xml`.
pub fn docx_events_to_markdown(events: &Vec<XmlEvent>) -> (r: String)
    ensures
        r@ == docx_fold(event_views(events@)).md,
{
    let ghost evs = event_views(events@);
    let mut md = String::new();
    let mut in_text = false;
    let mut cur = String::new();
    let mut bold = false;
    let mut italic = false;
    let mut heading: Option<u32> = None;
    let mut stopped = false;
    let mut i: usize = 0;
    while i < events.len()
        invariant
            i <= events@.len(),
            evs == event_views(events@),
            docx_fold(evs.take(i as int)) == (DocxState {
                md: md@,
                in_text,
                cur: cur@,
                bold,
                italic,
                heading: level_view(heading),
                stopped,
            }),
        decreases events@.len() - i,
    {
        assert(evs.take(i + 1).drop_last() =~= evs.take(i as int));
        assert(evs[i as int] == events@[i as int]@);
        if !stopped {
            match &events[i] {
                XmlEvent::Start { name, attributes } => {
                    if str_eq(name.as_str(), "p") {
                        cur = String::new();
                    } else if str_eq(name.as_str(), "t") {
                        in_text = true;
                    } else if is_either(name, "b", "bCs") {
                        bold = true;
                    } else if is_either(name, "i", "iCs") {
                        italic = true;
                    } else if str_eq(name.as_str(), "pStyle") {
                        heading = pstyle_heading(attributes, heading);
                    }
                },
                XmlEvent::Empty { name, attributes } => {
                    if is_either(name, "b", "bCs") {
                        bold = true;
                    } else if is_either(name, "i", "iCs") {
                        italic = true;
                    } else if str_eq(name.as_str(), "pStyle") {
                        heading = pstyle_heading(attributes, heading);
                    } else if str_eq(name.as_str(), "br") {
                        push_char(&mut cur, '\n');
                    } else if str_eq(name.as_str(), "tab") {
                        push_char(&mut cur, '\t');
                    }
                },
                XmlEvent::Text { text } => {
                    if in_text {
                        cur.append(text.as_str());
                    }
                },
                XmlEvent::End { name } => {
                    if str_eq(name.as_str(), "t") {
                        in_text = false;
                    } else if str_eq(name.as_str(), "p") {
                        let t = trim_str(cur.as_str());
                        if t.len() > 0 {
                            let ghost before = md@;
                            match heading {
                                Some(level) => {
                                    let mut k: u32 = 0;
                                    while k < level
                                        invariant
                                            k <= level,
                                            md@ == before + hashes(k as nat),
                                        decreases level - k,
                                    {
                                        push_char(&mut md, '#');
                                        assert(hashes(k as nat).push('#') =~= hashes((k + 1) as nat));
                                        k = k + 1;
                                    }
                                    md.append(" ");
                                    push_chars(&mut md, t.as_slice());
                                    md.append("\n\n");
                                },
                                None => {
                                    if bold {
                                        md.append("**");
                                        push_chars(&mut md, t.as_slice());
                                        md.append("**\n\n");
                                    } else if italic {
                                        md.append("*");
                                        push_chars(&mut md, t.as_slice());
                                        md.append("*\n\n");
                                    } else {
                                        push_chars(&mut md, t.as_slice());
                                        md.append("\n\n");
                                    }
                                },
                            }
                            assert(md@ =~= before + paragraph_markdown(t@, level_view(heading), bold, italic));
                        }
                        heading = None;
                        bold = false;
                        italic = false;
                    }
                },
                XmlEvent::Error => {
                    stopped = true;
                },
                XmlEvent::Other => {},
            }
        }
        i = i + 1;
    }
    assert(evs.take(events@.len() as int) =~= evs);
    md
}

/// Convert the XML of a DOCX body to Markdown.
pub fn parse_docx_xml(xml: &str) -> (r: String)
    ensures
        r@ == docx_markdown(xml@),
{
    let events = read_xml_events(xml);
    docx_events_to_markdown(&events)
}

// ── The document ──────────────────────────────────────────────────────────

/// The view of what the Word reader (`docx_rs::read_docx`) said of the
/// bytes: nothing when it read them, else its error's message.
pub open spec fn check_view(check: Result<(), String>) -> Option<Seq<char>> {
    match check {
        Ok(_) => None,
        Err(m) => Some(m@),
    }
}

/// The Markdown of a DOCX body (empty when there is none).
pub open spec fn docx_body_markdown(found: Option<Seq<char>>) -> Seq<char> {
    match found {
        Some(xml) => if xml.len() > 0 { docx_markdown(xml) } else { Seq::empty() },
        None => Seq::empty(),
    }
}

/// What converting a DOCX file's bytes gives, given the Word reader's error
/// for them (`None` when it read them): that error, the ZIP reader's checks,
/// then the Markdown of `word/document.xml` with its first `# ` heading as
/// title.
pub open spec fn docx_outcome(
    r: Result<ConversionResult, ConvertError>,
    path: Seq<char>,
    data: Seq<u8>,
    read_error: Option<Seq<char>>,
    file_size: u64,
) -> bool {
    match read_error {
        Some(m) => r matches Err(ConvertError::Docx(msg)) && msg@ == m,
        None => match zip_open_error(data) {
            Some(m) => r matches Err(ConvertError::Zip(msg)) && msg@ == m,
            None => match entry_search(data, "word/document.xml"@, 0, zip_entry_count(data)) {
                Err(m) => r matches Err(ConvertError::Zip(msg)) && msg@ == m,
                Ok(found) => r matches Ok(res) && is_full_result(
                    res,
                    docx_body_markdown(found),
                    heading_title(docx_body_markdown(found)),
                    1,
                    InputFormat::Docx,
                    path,
                    file_size,
                ),
            },
        },
    }
}

/// Convert a DOCX file, given its bytes and what the Word reader
/// (`docx_rs::read_docx`) said of them: `Ok` when it read them, else its
/// error's message.
pub fn extract_docx_to_markdown(path: &str, data: &[u8], check: Result<(), String>, file_size: u64) -> (r: Result<ConversionResult, ConvertError>)
    ensures
        docx_outcome(r, path@, data@, check_view(check), file_size),
{
    if let Err(m) = check {
        return Err(ConvertError::Docx(m));
    }
    let mut archive = match zip_open(data) {
        Ok(a) => a,
        Err(m) => return Err(ConvertError::Zip(m)),
    };
    let found = match find_entry_text(&mut archive, "word/document.xml") {
        Ok(f) => f,
        Err(m) => return Err(ConvertError::Zip(m)),
    };
    let markdown = match found {
        Some(xml) => if xml.as_str().unicode_len() > 0 {
            parse_docx_xml(xml.as_str())
        } else {
            String::new()
        },
        None => String::new(),
    };
    Ok(result_with_heading_title(markdown, InputFormat::Docx, path, file_size))
}

} // verus!
