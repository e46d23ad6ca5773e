//! Character-level helpers shared by the converters.

use vstd::prelude::*;
use vstd::utf8::{encode_utf8, encode_scalar, valid_utf8, decode_utf8};

verus! {

/// Unicode `White_Space`, the set that `char::is_whitespace` reports.
pub open spec fn is_ws(c: char) -> bool {
    ||| ('\u{9}' <= c && c <= '\u{d}')
    ||| c == ' '
    ||| c == '\u{85}'
    ||| c == '\u{a0}'
    ||| c == '\u{1680}'
    ||| ('\u{2000}' <= c && c <= '\u{200a}')
    ||| c == '\u{2028}'
    ||| c == '\u{2029}'
    ||| c == '\u{202f}'
    ||| c == '\u{205f}'
    ||| c == '\u{3000}'
}

/// Whether a character is whitespace in the sense of `char::is_whitespace`.
pub fn char_is_whitespace(c: char) -> (r: bool)
    ensures
        r == is_ws(c),
{
    ('\u{9}' <= c && c <= '\u{d}') || c == ' ' || c == '\u{85}' || c == '\u{a0}' || c
        == '\u{1680}' || ('\u{2000}' <= c && c <= '\u{200a}') || c == '\u{2028}' || c
        == '\u{2029}' || c == '\u{202f}' || c == '\u{205f}' || c == '\u{3000}'
}

/// The characters of a string slice, in order.
pub fn chars_of(s: &str) -> (v: Vec<char>)
    ensures
        v@ == s@,
{
    let mut v: Vec<char> = Vec::new();
    for c in it: s.chars()
        invariant
            it.seq() == s@,
            v@ == it.seq().take(it.index()),
    {
        v.push(c);
    }
    v
}

/// Appends one character to a string (`String::push`).
#[verifier::external_body]
pub(crate) fn push_char(s: &mut String, c: char)
    ensures
        final(s)@ == old(s)@.push(c),
{
    s.push(c);
}

/// The decimal digit character for `d < 10`.
pub open spec fn digit_char(d: nat) -> char {
    if d == 0 { '0' }
    else if d == 1 { '1' }
    else if d == 2 { '2' }
    else if d == 3 { '3' }
    else if d == 4 { '4' }
    else if d == 5 { '5' }
    else if d == 6 { '6' }
    else if d == 7 { '7' }
    else if d == 8 { '8' }
    else { '9' }
}

/// The decimal representation of `n`, without leading zeros (`"0"` for zero),
/// as `format!("{}", n)` writes an unsigned integer.
pub open spec fn decimal(n: nat) -> Seq<char>
    decreases n,
{
    if n < 10 {
        seq![digit_char(n)]
    } else {
        decimal(n / 10).push(digit_char(n % 10))
    }
}

fn digit_of(d: u128) -> (c: char)
    requires
        d < 10,
    ensures
        c == digit_char(d as nat),
{
    if d == 0 { '0' }
    else if d == 1 { '1' }
    else if d == 2 { '2' }
    else if d == 3 { '3' }
    else if d == 4 { '4' }
    else if d == 5 { '5' }
    else if d == 6 { '6' }
    else if d == 7 { '7' }
    else if d == 8 { '8' }
    else { '9' }
}

/// Appends the decimal representation of `n`.
pub fn push_decimal(out: &mut String, n: u128)
    ensures
        final(out)@ == old(out)@ + decimal(n as nat),
    decreases n,
{
    if n >= 10 {
        push_decimal(out, n / 10);
    }
    let c = digit_of(n % 10);
    push_char(out, c);
}

/// Appends the characters of `cs`.
pub fn push_chars(out: &mut String, cs: &[char])
    ensures
        final(out)@ == old(out)@ + cs@,
{
    let ghost start = out@;
    let mut i: usize = 0;
    while i < cs.len()
        invariant
            i <= cs@.len(),
            out@ == start + cs@.take(i as int),
        decreases cs@.len() - i,
    {
        push_char(out, cs[i]);
        assert(cs@.take(i + 1) =~= cs@.take(i as int).push(cs@[i as int]));
        i = i + 1;
    }
    assert(cs@.take(cs@.len() as int) =~= cs@);
}

/// A string holding exactly the characters of `cs`.
pub fn string_from_chars(cs: &[char]) -> (s: String)
    ensures
        s@ == cs@,
{
    let mut s = String::new();
    push_chars(&mut s, cs);
    s
}

/// Whether two string slices hold the same characters.
pub fn str_eq(a: &str, b: &str) -> (r: bool)
    ensures
        r == (a@ == b@),
{
    let x = chars_of(a);
    let y = chars_of(b);
    chars_eq(x.as_slice(), y.as_slice())
}

/// Whether two character slices are equal.
pub fn chars_eq(x: &[char], y: &[char]) -> (r: bool)
    ensures
        r == (x@ == y@),
{
    if x.len() != y.len() {
        return false;
    }
    let mut i: usize = 0;
    while i < x.len()
        invariant
            x@.len() == y@.len(),
            i <= x@.len(),
            forall|j: int| 0 <= j < i ==> x@[j] == y@[j],
        decreases x@.len() - i,
    {
        if x[i] != y[i] {
            return false;
        }
        i = i + 1;
    }
    assert(x@ =~= y@);
    true
}

// ── Lines ─────────────────────────────────────────────────────────────────

/// The pieces of `s` between line feeds; the last piece follows the last line
/// feed and may be empty.
pub open spec fn lf_pieces(s: Seq<char>) -> Seq<Seq<char>>
    decreases s.len(),
{
    if s.len() == 0 {
        seq![Seq::empty()]
    } else {
        let r = lf_pieces(s.drop_last());
        if s.last() == '\n' {
            r.push(Seq::empty())
        } else {
            r.update(r.len() - 1, r.last().push(s.last()))
        }
    }
}

/// A line with one trailing carriage return removed.
pub open spec fn strip_cr(line: Seq<char>) -> Seq<char> {
    if line.len() > 0 && line.last() == '\r' {
        line.drop_last()
    } else {
        line
    }
}

/// The lines of `s` as `str::lines` yields them: split at `\n` (a `\r` just
/// before the `\n` is dropped), with no empty line after a final `\n`.
pub open spec fn lines_of(s: Seq<char>) -> Seq<Seq<char>> {
    let p = lf_pieces(s);
    let body = p.drop_last().map_values(|l: Seq<char>| strip_cr(l));
    if p.last().len() == 0 {
        body
    } else {
        body.push(p.last())
    }
}

/// The views of a sequence of character vectors.
pub open spec fn views(v: Seq<Vec<char>>) -> Seq<Seq<char>> {
    v.map_values(|x: Vec<char>| x@)
}

pub proof fn lemma_lf_pieces_nonempty(s: Seq<char>)
    ensures
        lf_pieces(s).len() >= 1,
    decreases s.len(),
{
    if s.len() > 0 {
        lemma_lf_pieces_nonempty(s.drop_last());
    }
}

fn strip_cr_vec(mut line: Vec<char>) -> (r: Vec<char>)
    ensures
        r@ == strip_cr(line@),
{
    if line.len() > 0 && line[line.len() - 1] == '\r' {
        line.pop();
    }
    line
}

/// Split text into lines, as `str::lines` does.
pub fn split_lines(s: &[char]) -> (r: Vec<Vec<char>>)
    ensures
        views(r@) == lines_of(s@),
{
    let mut done: Vec<Vec<char>> = Vec::new();
    let mut cur: Vec<char> = Vec::new();
    let mut i: usize = 0;
    assert(s@.take(0) =~= Seq::<char>::empty());
    while i < s.len()
        invariant
            i <= s@.len(),
            views(done@) == lf_pieces(s@.take(i as int)).drop_last().map_values(
                |l: Seq<char>| strip_cr(l),
            ),
            cur@ == lf_pieces(s@.take(i as int)).last(),
        decreases s@.len() - i,
    {
        let c = s[i];
        let ghost before = s@.take(i as int);
        assert(s@.take(i + 1).drop_last() =~= before);
        proof {
            lemma_lf_pieces_nonempty(before);
        }
        if c == '\n' {
            let ghost pp = lf_pieces(before);
            let ghost old_done = views(done@);
            let line = strip_cr_vec(cur);
            done.push(line);
            cur = Vec::new();
            assert(s@.take(i + 1).last() == c);
            assert(lf_pieces(s@.take(i + 1)) == pp.push(Seq::empty()));
            assert(lf_pieces(s@.take(i + 1)).drop_last() =~= pp);
            assert(views(done@) =~= old_done.push(strip_cr(pp.last())));
            assert(pp.map_values(|l: Seq<char>| strip_cr(l)) =~= pp.drop_last().map_values(
                |l: Seq<char>| strip_cr(l),
            ).push(strip_cr(pp.last())));
        } else {
            cur.push(c);
            assert(lf_pieces(s@.take(i + 1)).drop_last() =~= lf_pieces(before).drop_last());
        }
        i = i + 1;
    }
    assert(s@.take(s@.len() as int) =~= s@);
    if cur.len() > 0 {
        done.push(cur);
        assert(views(done@) =~= lines_of(s@));
    } else {
        assert(views(done@) =~= lines_of(s@));
    }
    done
}

/// Total length of a sequence of lines.
pub open spec fn lens_sum(ls: Seq<Seq<char>>) -> nat
    decreases ls.len(),
{
    if ls.len() == 0 {
        0
    } else {
        lens_sum(ls.drop_last()) + ls.last().len()
    }
}

proof fn lemma_lens_sum_prefix(ls: Seq<Seq<char>>, n: int)
    requires
        0 <= n <= ls.len(),
    ensures
        lens_sum(ls.take(n)) <= lens_sum(ls),
    decreases ls.len(),
{
    if n < ls.len() {
        assert(ls.drop_last().take(n) =~= ls.take(n));
        lemma_lens_sum_prefix(ls.drop_last(), n);
    } else {
        assert(ls.take(n) =~= ls);
    }
}

proof fn lemma_lens_sum_strip(ls: Seq<Seq<char>>)
    ensures
        lens_sum(ls.map_values(|l: Seq<char>| strip_cr(l))) <= lens_sum(ls),
    decreases ls.len(),
{
    if ls.len() > 0 {
        assert(ls.map_values(|l: Seq<char>| strip_cr(l)).drop_last() =~= ls.drop_last().map_values(
            |l: Seq<char>| strip_cr(l),
        ));
        lemma_lens_sum_strip(ls.drop_last());
    }
}

proof fn lemma_lf_pieces_len(s: Seq<char>)
    ensures
        lens_sum(lf_pieces(s)) <= s.len(),
    decreases s.len(),
{
    if s.len() > 0 {
        let r = lf_pieces(s.drop_last());
        lemma_lf_pieces_len(s.drop_last());
        lemma_lf_pieces_nonempty(s.drop_last());
        if s.last() == '\n' {
            assert(r.push(Seq::empty()).drop_last() =~= r);
            assert(lens_sum(r.push(Seq::empty())) == lens_sum(r));
        } else {
            let u = r.update(r.len() - 1, r.last().push(s.last()));
            assert(u.drop_last() =~= r.drop_last());
            assert(u.last() == r.last().push(s.last()));
            assert(lens_sum(u) == lens_sum(r.drop_last()) + r.last().len() + 1);
            assert(lens_sum(r) == lens_sum(r.drop_last()) + r.last().len());
        }
    } else {
        let e: Seq<Seq<char>> = seq![Seq::empty()];
        assert(e.drop_last() =~= Seq::<Seq<char>>::empty());
        assert(lens_sum(Seq::<Seq<char>>::empty()) == 0);
        assert(e.last().len() == 0);
        assert(lens_sum(e) == 0);
    }
}

/// The lines of a text hold at most as many characters as the text.
pub proof fn lemma_lines_len(s: Seq<char>)
    ensures
        lens_sum(lines_of(s)) <= s.len(),
{
    let p = lf_pieces(s);
    lemma_lf_pieces_len(s);
    lemma_lf_pieces_nonempty(s);
    lemma_lens_sum_strip(p.drop_last());
    let body = p.drop_last().map_values(|l: Seq<char>| strip_cr(l));
    assert(p.drop_last().push(p.last()) =~= p);
    if p.last().len() != 0 {
        assert(body.push(p.last()).drop_last() =~= body);
    }
}

/// A prefix of the lines holds at most as many characters as all of them.
pub proof fn lemma_lens_sum_take(ls: Seq<Seq<char>>, n: int)
    requires
        0 <= n <= ls.len(),
    ensures
        lens_sum(ls.take(n)) <= lens_sum(ls),
{
    lemma_lens_sum_prefix(ls, n);
}

/// `trim` never lengthens.
pub proof fn lemma_trim_len(s: Seq<char>)
    ensures
        trim(s).len() <= s.len(),
{
    lemma_trim_start_len(s);
    lemma_trim_end_len(trim_start(s));
}

proof fn lemma_trim_start_len(s: Seq<char>)
    ensures
        trim_start(s).len() <= s.len(),
    decreases s.len(),
{
    if s.len() > 0 && is_ws(s[0]) {
        lemma_trim_start_len(s.drop_first());
    }
}

proof fn lemma_trim_end_len(s: Seq<char>)
    ensures
        trim_end(s).len() <= s.len(),
    decreases s.len(),
{
    if s.len() > 0 && is_ws(s.last()) {
        lemma_trim_end_len(s.drop_last());
    }
}

// ── Trimming ──────────────────────────────────────────────────────────────

/// `s` without leading whitespace.
pub open spec fn trim_start(s: Seq<char>) -> Seq<char>
    decreases s.len(),
{
    if s.len() > 0 && is_ws(s[0]) {
        trim_start(s.drop_first())
    } else {
        s
    }
}

/// `s` without trailing whitespace.
pub open spec fn trim_end(s: Seq<char>) -> Seq<char>
    decreases s.len(),
{
    if s.len() > 0 && is_ws(s.last()) {
        trim_end(s.drop_last())
    } else {
        s
    }
}

/// `str::trim`: `s` without leading and trailing whitespace.
pub open spec fn trim(s: Seq<char>) -> Seq<char> {
    trim_end(trim_start(s))
}

/// The bounds of the trimmed part of `s`.
pub fn trim_bounds(s: &[char]) -> (r: (usize, usize))
    ensures
        r.0 <= r.1 <= s@.len(),
        s@.subrange(r.0 as int, r.1 as int) == trim(s@),
{
    let mut i: usize = 0;
    assert(s@.skip(0) =~= s@);
    while i < s.len() && char_is_whitespace(s[i])
        invariant
            i <= s@.len(),
            trim_start(s@) == trim_start(s@.skip(i as int)),
        decreases s@.len() - i,
    {
        assert(s@.skip(i as int).drop_first() =~= s@.skip(i + 1));
        i = i + 1;
    }
    let mut j: usize = s.len();
    assert(s@.skip(i as int) =~= s@.subrange(i as int, j as int));
    while j > i && char_is_whitespace(s[j - 1])
        invariant
            i <= j <= s@.len(),
            trim(s@) == trim_end(s@.subrange(i as int, j as int)),
        decreases j,
    {
        assert(s@.subrange(i as int, j as int).drop_last() =~= s@.subrange(i as int, j - 1));
        j = j - 1;
    }
    (i, j)
}

/// `str::trim` on a character slice.
pub fn trim_chars(s: &[char]) -> (r: Vec<char>)
    ensures
        r@ == trim(s@),
{
    let (a, b) = trim_bounds(s);
    slice_chars(s, a, b)
}

/// Pieces joined with a separator between each two.
pub open spec fn joined(pieces: Seq<Seq<char>>, sep: Seq<char>) -> Seq<char>
    decreases pieces.len(),
{
    if pieces.len() == 0 {
        Seq::empty()
    } else if pieces.len() == 1 {
        pieces[0]
    } else {
        joined(pieces.drop_last(), sep) + sep + pieces.last()
    }
}

/// The strings joined with a separator between each two (`join`).
pub fn join_strings(v: &Vec<String>, sep: &str) -> (r: String)
    ensures
        r@ == joined(v@.map_values(|s: String| s@), sep@),
{
    let ghost vs = v@.map_values(|s: String| s@);
    let mut out = String::new();
    let mut i: usize = 0;
    while i < v.len()
        invariant
            i <= v@.len(),
            vs == v@.map_values(|s: String| s@),
            out@ == joined(vs.take(i as int), sep@),
        decreases v@.len() - i,
    {
        assert(vs.take(i + 1).drop_last() =~= vs.take(i as int));
        if i > 0 {
            out.append(sep);
        } else {
            assert(joined(vs.take(0), sep@) =~= Seq::<char>::empty());
        }
        out.append(v[i].as_str());
        i = i + 1;
    }
    assert(vs.take(v@.len() as int) =~= vs);
    out
}

/// `str::trim` on a string slice, as characters.
pub fn trim_str(s: &str) -> (r: Vec<char>)
    ensures
        r@ == trim(s@),
{
    let cs = chars_of(s);
    trim_chars(cs.as_slice())
}

/// The characters `s[a..b]`.
pub fn slice_chars(s: &[char], a: usize, b: usize) -> (r: Vec<char>)
    requires
        a <= b <= s@.len(),
    ensures
        r@ == s@.subrange(a as int, b as int),
{
    let mut r: Vec<char> = Vec::new();
    let mut k = a;
    while k < b
        invariant
            a <= k <= b,
            b <= s@.len(),
            r@ == s@.subrange(a as int, k as int),
        decreases b - k,
    {
        r.push(s[k]);
        assert(s@.subrange(a as int, k + 1) =~= s@.subrange(a as int, k as int).push(s@[k as int]));
        k = k + 1;
    }
    r
}

// ── Prefixes ──────────────────────────────────────────────────────────────

/// Whether `s` begins with `p`.
pub open spec fn has_prefix(s: Seq<char>, p: Seq<char>) -> bool {
    p.len() <= s.len() && s.take(p.len() as int) == p
}

/// Whether the characters `s[pos..]` begin with `p`.
pub fn starts_with_at(s: &[char], pos: usize, p: &[char]) -> (r: bool)
    requires
        pos <= s@.len(),
    ensures
        r == has_prefix(s@.skip(pos as int), p@),
{
    if p.len() > s.len() - pos {
        return false;
    }
    let mut k: usize = 0;
    while k < p.len()
        invariant
            k <= p@.len(),
            pos + p@.len() <= s@.len(),
            s@.len() == s.len(),
            forall|j: int| 0 <= j < k ==> s@[pos + j] == p@[j],
        decreases p@.len() - k,
    {
        if s[pos + k] != p[k] {
            assert(s@.skip(pos as int).take(p@.len() as int)[k as int] != p@[k as int]);
            return false;
        }
        k = k + 1;
    }
    assert(s@.skip(pos as int).take(p@.len() as int) =~= p@);
    true
}

/// `str::replace`: every non-overlapping occurrence of `pat`, scanning from
/// the left, replaced by `rep` (for a non-empty `pat`).
pub open spec fn replace_all(s: Seq<char>, pat: Seq<char>, rep: Seq<char>) -> Seq<char>
    decreases s.len(),
{
    if s.len() == 0 {
        Seq::empty()
    } else if pat.len() > 0 && has_prefix(s, pat) {
        rep + replace_all(s.skip(pat.len() as int), pat, rep)
    } else {
        seq![s[0]] + replace_all(s.drop_first(), pat, rep)
    }
}

/// `str::replace` on character slices.
pub fn replace_chars(s: &[char], pat: &[char], rep: &[char]) -> (r: Vec<char>)
    requires
        pat@.len() > 0,
    ensures
        r@ == replace_all(s@, pat@, rep@),
{
    let mut out: Vec<char> = Vec::new();
    let mut i: usize = 0;
    assert(s@.skip(0) =~= s@);
    while i < s.len()
        invariant
            i <= s@.len(),
            pat@.len() > 0,
            out@ + replace_all(s@.skip(i as int), pat@, rep@) == replace_all(s@, pat@, rep@),
        decreases s@.len() - i,
    {
        let ghost rest = s@.skip(i as int);
        if starts_with_at(s, i, pat) {
            let mut k: usize = 0;
            let ghost before = out@;
            while k < rep.len()
                invariant
                    k <= rep@.len(),
                    out@ == before + rep@.take(k as int),
                decreases rep@.len() - k,
            {
                out.push(rep[k]);
                assert(rep@.take(k + 1) =~= rep@.take(k as int).push(rep@[k as int]));
                k = k + 1;
            }
            assert(rep@.take(rep@.len() as int) =~= rep@);
            assert(rest.skip(pat@.len() as int) =~= s@.skip(i + pat@.len()));
            assert(out@ + replace_all(s@.skip(i + pat@.len()), pat@, rep@) =~= before + replace_all(rest, pat@, rep@));
            i = i + pat.len();
        } else {
            let ghost before = out@;
            out.push(s[i]);
            assert(rest.drop_first() =~= s@.skip(i + 1));
            assert(out@ + replace_all(s@.skip(i + 1), pat@, rep@) =~= before + replace_all(rest, pat@, rep@));
            i = i + 1;
        }
    }
    assert(s@.skip(i as int) =~= Seq::<char>::empty());
    assert(out@ + Seq::<char>::empty() =~= out@);
    out
}

/// `str::replace` on strings.
pub fn replace_str(s: &str, pat: &str, rep: &str) -> (r: String)
    requires
        pat@.len() > 0,
    ensures
        r@ == replace_all(s@, pat@, rep@),
{
    let a = chars_of(s);
    let b = chars_of(pat);
    let c = chars_of(rep);
    let v = replace_chars(a.as_slice(), b.as_slice(), c.as_slice());
    string_from_chars(v.as_slice())
}

/// `s` with every leading copy of `p` removed (`str::trim_start_matches`).
pub open spec fn strip_prefixes(s: Seq<char>, p: Seq<char>) -> Seq<char>
    decreases s.len(),
{
    if p.len() > 0 && has_prefix(s, p) {
        strip_prefixes(s.skip(p.len() as int), p)
    } else {
        s
    }
}

/// `trim_start_matches` for a non-empty pattern.
pub fn strip_prefixes_chars(s: &[char], p: &[char]) -> (r: Vec<char>)
    ensures
        r@ == strip_prefixes(s@, p@),
{
    if p.len() == 0 {
        return slice_chars(s, 0, s.len());
    }
    let mut i: usize = 0;
    assert(s@.skip(0) =~= s@);
    while i <= s.len() && starts_with_at(s, i, p)
        invariant
            i <= s@.len(),
            p@.len() > 0,
            strip_prefixes(s@, p@) == strip_prefixes(s@.skip(i as int), p@),
        decreases s@.len() - i,
    {
        assert(s@.skip(i as int).skip(p@.len() as int) =~= s@.skip(i + p@.len()));
        i = i + p.len();
    }
    let r = slice_chars(s, i, s.len());
    assert(s@.skip(i as int) =~= s@.subrange(i as int, s@.len() as int));
    r
}

// ── UTF-8 length ──────────────────────────────────────────────────────────

/// Encoding a concatenation concatenates the encodings.
pub proof fn lemma_encode_utf8_concat(a: Seq<char>, b: Seq<char>)
    ensures
        encode_utf8(a + b) == encode_utf8(a) + encode_utf8(b),
    decreases a.len(),
{
    if a.len() == 0 {
        assert(a + b =~= b);
        assert(encode_utf8(a) =~= Seq::<u8>::empty());
        assert(encode_utf8(a) + encode_utf8(b) =~= encode_utf8(b));
    } else {
        assert((a + b).drop_first() =~= a.drop_first() + b);
        lemma_encode_utf8_concat(a.drop_first(), b);
        assert((a + b)[0] == a[0]);
        assert(encode_utf8(a + b) =~= encode_utf8(a) + encode_utf8(b));
    }
}

/// The UTF-8 encoding has at least as many bytes as characters.
pub proof fn lemma_encode_utf8_len(s: Seq<char>)
    ensures
        encode_utf8(s).len() >= s.len(),
    decreases s.len(),
{
    if s.len() > 0 {
        lemma_encode_utf8_len(s.drop_first());
    }
}

/// Encoding a single character gives that character's scalar encoding.
pub proof fn lemma_encode_single(c: char)
    ensures
        encode_utf8(seq![c]) == encode_scalar(c as u32),
{
    let s = seq![c];
    assert(s.drop_first() =~= Seq::<char>::empty());
    assert(encode_utf8(s.drop_first()) =~= Seq::<u8>::empty());
    assert(encode_utf8(s) =~= encode_scalar(c as u32));
}

/// Number of bytes of the UTF-8 encoding of one character.
fn char_utf8_width(c: char) -> (w: usize)
    ensures
        w == encode_scalar(c as u32).len(),
        1 <= w <= 4,
{
    proof {
        vstd::utf8::char_is_scalar(c);
    }
    let v = c as u32;
    if v <= 0x7F {
        1
    } else if v <= 0x7FF {
        2
    } else if v <= 0xFFFF {
        3
    } else {
        4
    }
}

/// Whether the UTF-8 encoding of `cs` (what `str::len` measures) is shorter
/// than `limit` bytes.
pub fn utf8_len_below(cs: &[char], limit: usize) -> (r: bool)
    ensures
        r == (encode_utf8(cs@).len() < limit),
{
    if limit == 0 {
        return false;
    }
    let mut total: usize = 0;
    let mut i: usize = 0;
    assert(cs@.take(0) =~= Seq::<char>::empty());
    while i < cs.len()
        invariant
            i <= cs@.len(),
            total == encode_utf8(cs@.take(i as int)).len(),
            total < limit,
        decreases cs@.len() - i,
    {
        let w = char_utf8_width(cs[i]);
        proof {
            assert(cs@.take(i + 1) =~= cs@.take(i as int) + seq![cs@[i as int]]);
            lemma_encode_utf8_concat(cs@.take(i as int), seq![cs@[i as int]]);
            lemma_encode_single(cs@[i as int]);
        }
        if w >= limit - total {
            proof {
                lemma_encode_utf8_concat(cs@.take(i + 1), cs@.skip(i + 1));
                assert(cs@.take(i + 1) + cs@.skip(i + 1) =~= cs@);
            }
            return false;
        }
        total = total + w;
        i = i + 1;
    }
    assert(cs@.take(cs@.len() as int) =~= cs@);
    true
}

/// The number of leading characters of `s` whose UTF-8 encoding fits in
/// `limit` bytes.
pub open spec fn chars_within(s: Seq<char>, limit: nat) -> nat
    decreases s.len(),
{
    if s.len() == 0 {
        0
    } else if encode_scalar(s[0] as u32).len() <= limit {
        1 + chars_within(s.drop_first(), (limit - encode_scalar(s[0] as u32).len()) as nat)
    } else {
        0
    }
}

/// The longest prefix of `cs` whose UTF-8 encoding fits in `limit` bytes:
/// its number of characters and of bytes.
pub fn utf8_prefix_within(cs: &[char], limit: usize) -> (r: (usize, usize))
    ensures
        r.0 == chars_within(cs@, limit as nat),
        r.0 <= cs@.len(),
        r.1 == encode_utf8(cs@.take(r.0 as int)).len(),
{
    let mut total: usize = 0;
    let mut i: usize = 0;
    assert(cs@.skip(0) =~= cs@);
    assert(cs@.take(0) =~= Seq::<char>::empty());
    while i < cs.len()
        invariant
            i <= cs@.len(),
            total <= limit,
            total == encode_utf8(cs@.take(i as int)).len(),
            chars_within(cs@, limit as nat) == i + chars_within(cs@.skip(i as int), (limit - total) as nat),
        decreases cs@.len() - i,
    {
        let w = char_utf8_width(cs[i]);
        assert(cs@.skip(i as int)[0] == cs@[i as int]);
        assert(cs@.skip(i as int).drop_first() =~= cs@.skip(i + 1));
        if w > limit - total {
            return (i, total);
        }
        proof {
            assert(cs@.take(i + 1) =~= cs@.take(i as int) + seq![cs@[i as int]]);
            lemma_encode_utf8_concat(cs@.take(i as int), seq![cs@[i as int]]);
            lemma_encode_single(cs@[i as int]);
        }
        total = total + w;
        i = i + 1;
    }
    assert(cs@.skip(i as int) =~= Seq::<char>::empty());
    (i, total)
}

/// `std::str::from_utf8`: the text that the bytes encode, when they are valid UTF-8.
#[verifier::external_body]
pub(crate) fn utf8_text(bytes: &[u8]) -> (r: Option<String>)
    ensures
        r is Some <==> valid_utf8(bytes@),
        r matches Some(s) ==> s@ == decode_utf8(bytes@),
{
    std::str::from_utf8(bytes).ok().map(|s| s.to_string())
}

// ── Character classes ─────────────────────────────────────────────────────

/// The Unicode `Uppercase` property (`char::is_uppercase`).
pub uninterp spec fn is_uppercase_char(c: char) -> bool;

/// The Unicode `Alphabetic` property (`char::is_alphabetic`).
pub uninterp spec fn is_alphabetic_char(c: char) -> bool;

/// `char::is_uppercase`: whether the character has the Unicode `Uppercase`
/// property. The property's table is not restated here.
#[verifier::external_body]
pub(crate) fn char_is_uppercase(c: char) -> (r: bool)
    ensures
        r == is_uppercase_char(c),
{
    c.is_uppercase()
}

/// `char::is_alphabetic`: whether the character has the Unicode `Alphabetic`
/// property. The property's table is not restated here.
#[verifier::external_body]
pub(crate) fn char_is_alphabetic(c: char) -> (r: bool)
    ensures
        r == is_alphabetic_char(c),
{
    c.is_alphabetic()
}

/// The Unicode `Alphabetic` or `Numeric` property (`char::is_alphanumeric`).
pub uninterp spec fn is_alphanumeric_char(c: char) -> bool;

/// `char::is_alphanumeric`: whether the character is alphabetic or numeric in
/// the Unicode sense. The property tables are not restated here.
#[verifier::external_body]
pub(crate) fn char_is_alphanumeric(c: char) -> (r: bool)
    ensures
        r == is_alphanumeric_char(c),
{
    c.is_alphanumeric()
}

/// Number of uppercase characters.
pub open spec fn count_upper(s: Seq<char>) -> nat
    decreases s.len(),
{
    if s.len() == 0 {
        0
    } else {
        count_upper(s.drop_last()) + if is_uppercase_char(s.last()) { 1nat } else { 0nat }
    }
}

/// Number of alphabetic characters.
pub open spec fn count_alpha(s: Seq<char>) -> nat
    decreases s.len(),
{
    if s.len() == 0 {
        0
    } else {
        count_alpha(s.drop_last()) + if is_alphabetic_char(s.last()) { 1nat } else { 0nat }
    }
}

/// The numbers of uppercase and of alphabetic characters.
pub fn count_upper_alpha(s: &[char]) -> (r: (usize, usize))
    ensures
        r.0 == count_upper(s@),
        r.1 == count_alpha(s@),
        r.0 <= s@.len(),
        r.1 <= s@.len(),
{
    let mut u: usize = 0;
    let mut a: usize = 0;
    let mut i: usize = 0;
    while i < s.len()
        invariant
            i <= s@.len(),
            u == count_upper(s@.take(i as int)),
            a == count_alpha(s@.take(i as int)),
            u <= i,
            a <= i,
        decreases s@.len() - i,
    {
        assert(s@.take(i + 1).drop_last() =~= s@.take(i as int));
        if char_is_uppercase(s[i]) {
            u = u + 1;
        }
        if char_is_alphabetic(s[i]) {
            a = a + 1;
        }
        i = i + 1;
    }
    assert(s@.take(s@.len() as int) =~= s@);
    (u, a)
}

/// The first of `lines` that begins with `p`.
pub open spec fn first_with_prefix(lines: Seq<Seq<char>>, p: Seq<char>) -> Option<Seq<char>>
    decreases lines.len(),
{
    if lines.len() == 0 {
        None
    } else if has_prefix(lines[0], p) {
        Some(lines[0])
    } else {
        first_with_prefix(lines.drop_first(), p)
    }
}

/// The index of the first of `lines` that begins with `p`.
pub fn find_line_with_prefix(lines: &Vec<Vec<char>>, p: &[char]) -> (r: Option<usize>)
    ensures
        match r {
            Some(i) => i < lines@.len() && first_with_prefix(views(lines@), p@) == Some(lines@[i as int]@),
            None => first_with_prefix(views(lines@), p@) is None,
        },
{
    let mut i: usize = 0;
    assert(views(lines@).skip(0) =~= views(lines@));
    while i < lines.len()
        invariant
            i <= lines@.len(),
            first_with_prefix(views(lines@), p@) == first_with_prefix(views(lines@).skip(i as int), p@),
        decreases lines@.len() - i,
    {
        assert(views(lines@).skip(i as int)[0] == lines@[i as int]@);
        if starts_with_at(lines[i].as_slice(), 0, p) {
            assert(lines@[i as int]@.skip(0) =~= lines@[i as int]@);
            return Some(i);
        }
        assert(lines@[i as int]@.skip(0) =~= lines@[i as int]@);
        assert(views(lines@).skip(i as int).drop_first() =~= views(lines@).skip(i + 1));
        i = i + 1;
    }
    assert(views(lines@).skip(i as int) =~= Seq::<Seq<char>>::empty());
    None
}

} // verus!
