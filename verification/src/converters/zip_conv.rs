//! ZIP archives: statistics, an index and the text files inside.
//!
//! The Markdown of an archive lists its entries with sizes, gives totals and
//! a breakdown by file type, and then shows the content of each text file
//! (by extension) in a fenced code block.

use vstd::prelude::*;
use vstd::utf8::encode_utf8;
use crate::text::{
    chars_of, push_chars, push_decimal, decimal, str_eq, replace_all, replace_str, chars_within,
    utf8_prefix_within, utf8_len_below,
};
use crate::utils::{InputFormat, format_size, format_size_spec, path_extension, path_extension_of, to_lowercase, lowercase_of, path_file_stem, path_file_stem_of};
use crate::archive::{
    zip_open, zip_open_error, zip_entry_count, zip_entry_text, zip_source, entries_from, list_entries, zip_read_entry,
    is_dir_name, entry_is_dir,
};
use super::{DocumentConverter, ConversionResult, ConvertError, DocumentMetadata};
use super::txt::is_full_result;

verus! {

/// ZIP to Markdown converter.
pub struct ZipConverter;

impl ZipConverter {
    pub fn new() -> (r: Self) {
        ZipConverter
    }
}

impl DocumentConverter for ZipConverter {
    open spec fn spec_format(&self) -> InputFormat {
        InputFormat::Zip
    }

    fn format(&self) -> (r: InputFormat) {
        InputFormat::Zip
    }
}

// ── Entries ───────────────────────────────────────────────────────────────

/// The file type of an entry: empty for a directory, else the lower-case
/// extension of its name, or `(no ext)`.
pub open spec fn entry_ext(name: Seq<char>) -> Seq<char> {
    if is_dir_name(name) {
        Seq::empty()
    } else {
        match path_extension_of(name) {
            Some(e) => lowercase_of(e),
            None => "(no ext)"@,
        }
    }
}

/// What the archive index records of an entry.
pub struct ZipEntryInfo {
    pub index: usize,
    pub name: String,
    pub size: u64,
    pub is_dir: bool,
    pub ext: String,
}

/// The (name, size) listing that the records describe.
pub open spec fn listing_of(v: Seq<ZipEntryInfo>) -> Seq<(Seq<char>, u64)> {
    v.map_values(|e: ZipEntryInfo| (e.name@, e.size))
}

/// Whether each record holds its position, and the directory flag and file
/// type that its name gives.
pub open spec fn well_recorded(v: Seq<ZipEntryInfo>) -> bool {
    forall|i: int|
        0 <= i < v.len() ==> {
            &&& (#[trigger] v[i]).index == i
            &&& v[i].is_dir == is_dir_name(v[i].name@)
            &&& v[i].ext@ == entry_ext(v[i].name@)
        }
}

/// The record of each entry of a listing.
pub fn entry_infos(listing: &Vec<(String, u64)>) -> (r: Vec<ZipEntryInfo>)
    ensures
        well_recorded(r@),
        listing_of(r@) == listing@.map_values(|e: (String, u64)| (e.0@, e.1)),
{
    let ghost l = listing@.map_values(|e: (String, u64)| (e.0@, e.1));
    let mut v: Vec<ZipEntryInfo> = Vec::new();
    let mut i: usize = 0;
    while i < listing.len()
        invariant
            i <= listing@.len(),
            l == listing@.map_values(|e: (String, u64)| (e.0@, e.1)),
            v@.len() == i,
            well_recorded(v@),
            listing_of(v@) == l.take(i as int),
        decreases listing@.len() - i,
    {
        let name = listing[i].0.clone();
        let size = listing[i].1;
        let is_dir = entry_is_dir(name.as_str());
        let ext = if is_dir {
            String::new()
        } else {
            match path_extension(name.as_str()) {
                Some(e) => to_lowercase(e.as_str()),
                None => "(no ext)".to_owned(),
            }
        };
        let ghost before = listing_of(v@);
        v.push(ZipEntryInfo { index: i, name, size, is_dir, ext });
        assert(listing_of(v@) =~= before.push(l[i as int]));
        assert(l.take(i + 1) =~= l.take(i as int).push(l[i as int]));
        i = i + 1;
    }
    assert(l.take(listing@.len() as int) =~= l);
    v
}

/// The total size of the entries.
pub open spec fn total_size(l: Seq<(Seq<char>, u64)>) -> nat
    decreases l.len(),
{
    if l.len() == 0 {
        0
    } else {
        total_size(l.drop_last()) + (l.last().1 as nat)
    }
}

/// The number of entries that are not directories.
pub open spec fn file_count(l: Seq<(Seq<char>, u64)>) -> nat
    decreases l.len(),
{
    if l.len() == 0 {
        0
    } else {
        file_count(l.drop_last()) + if is_dir_name(l.last().0) { 0nat } else { 1nat }
    }
}

proof fn lemma_file_count_bound(l: Seq<(Seq<char>, u64)>)
    ensures
        file_count(l) <= l.len(),
    decreases l.len(),
{
    if l.len() > 0 {
        lemma_file_count_bound(l.drop_last());
    }
}

proof fn lemma_total_prefix(l: Seq<(Seq<char>, u64)>, k: int)
    requires
        0 <= k <= l.len(),
    ensures
        total_size(l.take(k)) <= total_size(l),
    decreases l.len(),
{
    if k < l.len() {
        assert(l.drop_last().take(k) =~= l.take(k));
        lemma_total_prefix(l.drop_last(), k);
    } else {
        assert(l.take(k) =~= l);
    }
}

/// The total size of the entries, or nothing when it does not fit in 64 bits.
fn sum_sizes(v: &Vec<ZipEntryInfo>) -> (r: Option<u64>)
    ensures
        match r {
            Some(t) => t == total_size(listing_of(v@)),
            None => total_size(listing_of(v@)) > u64::MAX,
        },
{
    let ghost l = listing_of(v@);
    let mut t: u64 = 0;
    let mut i: usize = 0;
    while i < v.len()
        invariant
            i <= v@.len(),
            l == listing_of(v@),
            t == total_size(l.take(i as int)),
        decreases v@.len() - i,
    {
        assert(l.take(i + 1).drop_last() =~= l.take(i as int));
        assert(l.take(i + 1).last() == l[i as int]);
        match t.checked_add(v[i].size) {
            Some(n) => t = n,
            None => {
                proof {
                    lemma_total_prefix(l, i + 1);
                }
                return None;
            },
        }
        i = i + 1;
    }
    assert(l.take(v@.len() as int) =~= l);
    Some(t)
}

/// The number of entries that are not directories.
fn count_files(v: &Vec<ZipEntryInfo>) -> (r: usize)
    requires
        well_recorded(v@),
    ensures
        r == file_count(listing_of(v@)),
{
    let ghost l = listing_of(v@);
    let mut n: usize = 0;
    let mut i: usize = 0;
    while i < v.len()
        invariant
            i <= v@.len(),
            l == listing_of(v@),
            well_recorded(v@),
            n == file_count(l.take(i as int)),
        decreases v@.len() - i,
    {
        assert(l.take(i + 1).drop_last() =~= l.take(i as int));
        assert(l.take(i + 1).last() == l[i as int]);
        assert(v@[i as int].is_dir == is_dir_name(l[i as int].0));
        proof {
            lemma_file_count_bound(l.take(i as int));
        }
        if !v[i].is_dir {
            n = n + 1;
        }
        i = i + 1;
    }
    assert(l.take(v@.len() as int) =~= l);
    n
}

// ── File types ────────────────────────────────────────────────────────────

/// The position of `e` among the counted types, or -1.
pub open spec fn type_index(cs: Seq<(Seq<char>, nat)>, e: Seq<char>) -> int
    decreases cs.len(),
{
    if cs.len() == 0 {
        -1
    } else if type_index(cs.drop_last(), e) >= 0 {
        type_index(cs.drop_last(), e)
    } else if cs.last().0 == e {
        cs.len() - 1
    } else {
        -1
    }
}

/// Counting one more file of type `e`: a new type goes last.
pub open spec fn count_type(cs: Seq<(Seq<char>, nat)>, e: Seq<char>) -> Seq<(Seq<char>, nat)> {
    let k = type_index(cs, e);
    if k >= 0 {
        cs.update(k, (e, cs[k].1 + 1))
    } else {
        cs.push((e, 1nat))
    }
}

/// The file types of the entries that are not directories, with their
/// counts, in the order each type first appears.
pub open spec fn type_counts(l: Seq<(Seq<char>, u64)>) -> Seq<(Seq<char>, nat)>
    decreases l.len(),
{
    if l.len() == 0 {
        Seq::empty()
    } else if is_dir_name(l.last().0) {
        type_counts(l.drop_last())
    } else {
        count_type(type_counts(l.drop_last()), entry_ext(l.last().0))
    }
}

/// Insertion of `x` after every element whose count is not smaller.
pub open spec fn insert_by_count(s: Seq<(Seq<char>, nat)>, x: (Seq<char>, nat)) -> Seq<(Seq<char>, nat)>
    decreases s.len(),
{
    if s.len() == 0 || s.last().1 >= x.1 {
        s.push(x)
    } else {
        insert_by_count(s.drop_last(), x).push(s.last())
    }
}

/// The stable sort by count, largest first.
pub open spec fn sort_by_count(s: Seq<(Seq<char>, nat)>) -> Seq<(Seq<char>, nat)>
    decreases s.len(),
{
    if s.len() == 0 {
        s
    } else {
        insert_by_count(sort_by_count(s.drop_last()), s.last())
    }
}

/// The view of a list of counted types.
pub open spec fn count_views(v: Seq<(String, usize)>) -> Seq<(Seq<char>, nat)> {
    v.map_values(|e: (String, usize)| (e.0@, e.1 as nat))
}

proof fn lemma_type_index(cs: Seq<(Seq<char>, nat)>, e: Seq<char>)
    ensures
        -1 <= type_index(cs, e) < cs.len(),
        type_index(cs, e) >= 0 ==> cs[type_index(cs, e)].0 == e,
        type_index(cs, e) < 0 ==> forall|j: int| 0 <= j < cs.len() ==> (#[trigger] cs[j]).0 != e,
        forall|j: int| 0 <= j < type_index(cs, e) ==> (#[trigger] cs[j]).0 != e,
    decreases cs.len(),
{
    if cs.len() > 0 {
        lemma_type_index(cs.drop_last(), e);
        assert forall|j: int| 0 <= j < cs.len() - 1 implies cs[j] == cs.drop_last()[j] by {}
    }
}

/// The position of a type among the counted ones.
fn find_type(v: &Vec<(String, usize)>, e: &str) -> (r: Option<usize>)
    ensures
        match r {
            Some(k) => type_index(count_views(v@), e@) == k,
            None => type_index(count_views(v@), e@) < 0,
        },
{
    let ghost cs = count_views(v@);
    proof {
        lemma_type_index(cs, e@);
    }
    let mut i: usize = 0;
    while i < v.len()
        invariant
            i <= v@.len(),
            cs == count_views(v@),
            -1 <= type_index(cs, e@) < cs.len(),
            type_index(cs, e@) >= 0 ==> cs[type_index(cs, e@)].0 == e@,
            forall|j: int| 0 <= j < type_index(cs, e@) ==> (#[trigger] cs[j]).0 != e@,
            type_index(cs, e@) < 0 ==> forall|j: int| 0 <= j < cs.len() ==> (#[trigger] cs[j]).0 != e@,
            forall|j: int| 0 <= j < i ==> (#[trigger] cs[j]).0 != e@,
        decreases v@.len() - i,
    {
        assert(cs[i as int].0 == v@[i as int].0@);
        if str_eq(v[i].0.as_str(), e) {
            return Some(i);
        }
        i = i + 1;
    }
    None
}

/// The file types of the entries that are not directories, with their
/// counts, in the order each type first appears.
fn count_types(v: &Vec<ZipEntryInfo>) -> (r: Vec<(String, usize)>)
    requires
        well_recorded(v@),
    ensures
        count_views(r@) == type_counts(listing_of(v@)),
{
    let ghost l = listing_of(v@);
    let mut cs: Vec<(String, usize)> = Vec::new();
    let mut i: usize = 0;
    while i < v.len()
        invariant
            i <= v@.len(),
            l == listing_of(v@),
            well_recorded(v@),
            count_views(cs@) == type_counts(l.take(i as int)),
            forall|j: int| 0 <= j < cs@.len() ==> (#[trigger] cs@[j]).1 <= i,
        decreases v@.len() - i,
    {
        assert(l.take(i + 1).drop_last() =~= l.take(i as int));
        assert(l.take(i + 1).last() == l[i as int]);
        assert(v@[i as int].is_dir == is_dir_name(l[i as int].0));
        assert(v@[i as int].ext@ == entry_ext(l[i as int].0));
        if !v[i].is_dir {
            let ghost before = count_views(cs@);
            proof {
                lemma_type_index(before, v@[i as int].ext@);
            }
            match find_type(&cs, v[i].ext.as_str()) {
                Some(k) => {
                    assert(before[k as int].1 == cs@[k as int].1);
                    let n = cs[k].1 + 1;
                    let name = cs[k].0.clone();
                    cs.set(k, (name, n));
                    assert(count_views(cs@) =~= before.update(k as int, (v@[i as int].ext@, before[k as int].1 + 1)));
                },
                None => {
                    cs.push((v[i].ext.clone(), 1));
                    assert(count_views(cs@) =~= before.push((v@[i as int].ext@, 1nat)));
                },
            }
        }
        i = i + 1;
    }
    assert(l.take(v@.len() as int) =~= l);
    cs
}

proof fn lemma_insert_count_split(s: Seq<(Seq<char>, nat)>, x: (Seq<char>, nat), j: int)
    requires
        0 < j <= s.len(),
        s[j - 1].1 < x.1,
    ensures
        insert_by_count(s.take(j), x) + s.skip(j) == insert_by_count(s.take(j - 1), x) + s.skip(j - 1),
{
    assert(s.take(j).drop_last() =~= s.take(j - 1));
    assert(s.take(j).last() == s[j - 1]);
    assert(insert_by_count(s.take(j - 1), x).push(s[j - 1]) + s.skip(j) =~= insert_by_count(s.take(j - 1), x) + s.skip(j - 1));
}

/// Sort counted types by count, largest first, keeping ties in their order.
fn sort_types(v: &Vec<(String, usize)>) -> (r: Vec<(String, usize)>)
    ensures
        count_views(r@) == sort_by_count(count_views(v@)),
{
    let ghost input = count_views(v@);
    let mut out: Vec<(String, usize)> = Vec::new();
    let mut i: usize = 0;
    while i < v.len()
        invariant
            i <= v@.len(),
            input == count_views(v@),
            count_views(out@) == sort_by_count(input.take(i as int)),
        decreases v@.len() - i,
    {
        assert(input.take(i + 1).drop_last() =~= input.take(i as int));
        let name = v[i].0.clone();
        let count = v[i].1;
        let ghost xv = (name@, count as nat);
        assert(input[i as int] == xv);
        let ghost ov = count_views(out@);
        let mut j: usize = out.len();
        assert(ov.take(j as int) =~= ov);
        assert(ov.skip(j as int) =~= Seq::<(Seq<char>, nat)>::empty());
        while j > 0 && out[j - 1].1 < count
            invariant
                j <= out@.len(),
                ov == count_views(out@),
                xv.1 == count as nat,
                insert_by_count(ov, xv) == insert_by_count(ov.take(j as int), xv) + ov.skip(j as int),
            decreases j,
        {
            proof {
                assert(ov[j - 1] == (out@[j - 1].0@, out@[j - 1].1 as nat));
                lemma_insert_count_split(ov, xv, j as int);
            }
            j = j - 1;
        }
        assert(insert_by_count(ov.take(j as int), xv) == ov.take(j as int).push(xv));
        out.insert(j, (name, count));
        assert(count_views(out@) =~= ov.take(j as int).push(xv) + ov.skip(j as int));
        i = i + 1;
    }
    assert(input.take(v@.len() as int) =~= input);
    out
}

// ── The index ─────────────────────────────────────────────────────────────

/// The sum of the counts of counted types.
pub open spec fn count_sum(cs: Seq<(Seq<char>, nat)>) -> nat
    decreases cs.len(),
{
    if cs.len() == 0 {
        0
    } else {
        count_sum(cs.drop_last()) + cs.last().1
    }
}

proof fn lemma_count_sum_bump(cs: Seq<(Seq<char>, nat)>, k: int, e: Seq<char>)
    requires
        0 <= k < cs.len(),
    ensures
        count_sum(cs.update(k, (e, cs[k].1 + 1))) == count_sum(cs) + 1,
    decreases cs.len(),
{
    let u = cs.update(k, (e, cs[k].1 + 1));
    if k == cs.len() - 1 {
        assert(u.drop_last() =~= cs.drop_last());
    } else {
        lemma_count_sum_bump(cs.drop_last(), k, e);
        assert(u.drop_last() =~= cs.drop_last().update(k, (e, cs[k].1 + 1)));
    }
}

/// The file-type table accounts for every file: its counts add up to the
/// number of entries that are not directories.
pub proof fn law_type_counts_cover_files(l: Seq<(Seq<char>, u64)>)
    ensures
        count_sum(type_counts(l)) == file_count(l),
    decreases l.len(),
{
    if l.len() > 0 {
        let t = l.drop_last();
        law_type_counts_cover_files(t);
        if !is_dir_name(l.last().0) {
            let cs = type_counts(t);
            let e = entry_ext(l.last().0);
            let k = type_index(cs, e);
            lemma_type_index(cs, e);
            if k >= 0 {
                lemma_count_sum_bump(cs, k, e);
            } else {
                assert(cs.push((e, 1nat)).drop_last() =~= cs);
            }
        }
    }
}

/// Whether counted types run from the largest count down.
pub open spec fn counts_descending(s: Seq<(Seq<char>, nat)>) -> bool {
    forall|i: int, j: int| 0 <= i <= j < s.len() ==> s[i].1 >= s[j].1
}

proof fn lemma_insert_count_bound(s: Seq<(Seq<char>, nat)>, x: (Seq<char>, nat), b: nat)
    requires
        forall|i: int| 0 <= i < s.len() ==> s[i].1 >= b,
        x.1 >= b,
    ensures
        forall|k: int| 0 <= k < insert_by_count(s, x).len() ==> #[trigger] insert_by_count(s, x)[k].1 >= b,
    decreases s.len(),
{
    let r = insert_by_count(s, x);
    if s.len() > 0 && s.last().1 < x.1 {
        let t = s.drop_last();
        lemma_insert_count_bound(t, x, b);
        assert forall|k: int| 0 <= k < r.len() implies #[trigger] r[k].1 >= b by {
            if k < r.len() - 1 {
                assert(r[k] == insert_by_count(t, x)[k]);
            }
        }
    } else {
        assert forall|k: int| 0 <= k < r.len() implies #[trigger] r[k].1 >= b by {
            if k < r.len() - 1 {
                assert(r[k] == s[k]);
            }
        }
    }
}

proof fn lemma_insert_by_count(s: Seq<(Seq<char>, nat)>, x: (Seq<char>, nat))
    requires
        counts_descending(s),
    ensures
        counts_descending(insert_by_count(s, x)),
        insert_by_count(s, x).to_multiset() == s.to_multiset().insert(x),
    decreases s.len(),
{
    broadcast use vstd::seq_lib::group_to_multiset_ensures;
    if s.len() > 0 && s.last().1 < x.1 {
        let t = s.drop_last();
        lemma_insert_by_count(t, x);
        lemma_insert_count_bound(t, x, s.last().1);
        assert(s =~= t.push(s.last()));
        assert(insert_by_count(s, x).to_multiset() =~= s.to_multiset().insert(x));
    }
}

/// The file-type table lists the types from the most frequent down, and
/// lists each counted type exactly once with its count.
pub proof fn law_types_by_descending_count(cs: Seq<(Seq<char>, nat)>)
    ensures
        counts_descending(sort_by_count(cs)),
        sort_by_count(cs).to_multiset() == cs.to_multiset(),
    decreases cs.len(),
{
    broadcast use vstd::seq_lib::group_to_multiset_ensures;
    if cs.len() > 0 {
        let t = cs.drop_last();
        law_types_by_descending_count(t);
        lemma_insert_by_count(sort_by_count(t), cs.last());
        assert(cs =~= t.push(cs.last()));
    }
}

/// The rows of the file-type table.
pub open spec fn type_rows(cs: Seq<(Seq<char>, nat)>) -> Seq<char>
    decreases cs.len(),
{
    if cs.len() == 0 {
        Seq::empty()
    } else {
        type_rows(cs.drop_last()) + "| "@ + cs.last().0 + " | "@ + decimal(cs.last().1) + " |\n"@
    }
}

/// The file-type table, largest count first, when there is any file.
pub open spec fn types_section(cs: Seq<(Seq<char>, nat)>) -> Seq<char> {
    if cs.len() > 0 {
        "\n### File Types\n\n"@ + "| Extension | Count |\n"@ + "| --- | --- |\n"@ + type_rows(sort_by_count(cs)) + "\n"@
    } else {
        Seq::empty()
    }
}

/// A name with its `|` characters escaped for a Markdown table.
pub open spec fn escape_pipe_spec(s: Seq<char>) -> Seq<char> {
    replace_all(s, "|"@, "\\|"@)
}

/// The size column of an entry: `-` for a directory.
pub open spec fn size_cell(name: Seq<char>, size: u64) -> Seq<char> {
    if is_dir_name(name) {
        "-"@
    } else {
        format_size_spec(size as nat)
    }
}

/// The rows of the contents table, numbered from 1.
pub open spec fn content_rows(l: Seq<(Seq<char>, u64)>) -> Seq<char>
    decreases l.len(),
{
    if l.len() == 0 {
        Seq::empty()
    } else {
        content_rows(l.drop_last()) + "| "@ + decimal(l.len()) + " | "@ + escape_pipe_spec(l.last().0) + " | "@
            + size_cell(l.last().0, l.last().1) + " |\n"@
    }
}

/// The title line, statistics, file types and contents table of an archive.
pub open spec fn listing_markdown(title: Option<Seq<char>>, l: Seq<(Seq<char>, u64)>, archive_size: u64) -> Seq<char> {
    (match title {
        Some(t) => "# "@ + t + "\n\n"@,
        None => Seq::empty(),
    }) + "## Statistics\n\n"@ + "- **Total entries**: "@ + decimal(l.len()) + "\n"@
        + "- **Files** (non-directory): "@ + decimal(file_count(l)) + "\n"@ + "- **Total uncompressed size**: "@
        + format_size_spec(total_size(l)) + "\n"@ + "- **Archive size**: "@ + format_size_spec(archive_size as nat)
        + "\n"@ + types_section(type_counts(l)) + "## Archive Contents\n\n"@ + "| # | Name | Size |\n"@
        + "| --- | --- | --- |\n"@
        + content_rows(l) + "\n"@
}

/// Escape pipe characters for safe inclusion in Markdown tables.
pub fn escape_pipe(s: &str) -> (r: String)
    ensures
        r@ == escape_pipe_spec(s@),
{
    proof {
        reveal_strlit("|");
    }
    replace_str(s, "|", "\\|")
}

/// Appends the file-type table.
fn push_types(md: &mut String, v: &Vec<ZipEntryInfo>)
    requires
        well_recorded(v@),
    ensures
        final(md)@ == old(md)@ + types_section(type_counts(listing_of(v@))),
{
    let counts = count_types(v);
    if counts.len() > 0 {
        let sorted = sort_types(&counts);
        let ghost cs = count_views(sorted@);
        md.append("\n### File Types\n\n");
        md.append("| Extension | Count |\n");
        md.append("| --- | --- |\n");
        let ghost start = md@;
        let mut i: usize = 0;
        while i < sorted.len()
            invariant
                i <= sorted@.len(),
                cs == count_views(sorted@),
                md@ == start + type_rows(cs.take(i as int)),
            decreases sorted@.len() - i,
        {
            assert(cs.take(i + 1).drop_last() =~= cs.take(i as int));
            assert(cs.take(i + 1).last() == (sorted@[i as int].0@, sorted@[i as int].1 as nat));
            md.append("| ");
            md.append(sorted[i].0.as_str());
            md.append(" | ");
            push_decimal(md, sorted[i].1 as u128);
            md.append(" |\n");
            i = i + 1;
        }
        assert(cs.take(sorted@.len() as int) =~= cs);
        md.append("\n");
    }
}

/// Appends the contents table's rows.
#[verifier::rlimit(40)]
fn push_content_rows(md: &mut String, v: &Vec<ZipEntryInfo>)
    requires
        well_recorded(v@),
    ensures
        final(md)@ == old(md)@ + content_rows(listing_of(v@)),
{
    let ghost l = listing_of(v@);
    let ghost start = md@;
    let mut i: usize = 0;
    while i < v.len()
        invariant
            i <= v@.len(),
            l == listing_of(v@),
            well_recorded(v@),
            md@ == start + content_rows(l.take(i as int)),
        decreases v@.len() - i,
    {
        assert(l.take(i + 1).drop_last() =~= l.take(i as int));
        assert(l.take(i + 1).last() == l[i as int]);
        let e = &v[i];
        assert(e.is_dir == is_dir_name(l[i as int].0));
        md.append("| ");
        push_decimal(md, (i + 1) as u128);
        md.append(" | ");
        let escaped = escape_pipe(e.name.as_str());
        md.append(escaped.as_str());
        md.append(" | ");
        if e.is_dir {
            md.append("-");
        } else {
            let size = format_size(e.size);
            md.append(size.as_str());
        }
        md.append(" |\n");
        i = i + 1;
    }
    assert(l.take(v@.len() as int) =~= l);
}

/// The title line, statistics, file types and contents table of an archive.
pub fn zip_listing_markdown(title: &Option<String>, v: &Vec<ZipEntryInfo>, total: u64, archive_size: u64) -> (r: String)
    requires
        well_recorded(v@),
        total == total_size(listing_of(v@)),
    ensures
        r@ == listing_markdown(
            match title {
                Some(t) => Some(t@),
                None => None,
            },
            listing_of(v@),
            archive_size,
        ),
{
    let mut md = String::new();
    match title {
        Some(t) => {
            md.append("# ");
            md.append(t.as_str());
            md.append("\n\n");
        },
        None => {},
    }
    md.append("## Statistics\n\n");
    md.append("- **Total entries**: ");
    push_decimal(&mut md, v.len() as u128);
    md.append("\n");
    md.append("- **Files** (non-directory): ");
    let files = count_files(v);
    push_decimal(&mut md, files as u128);
    md.append("\n");
    md.append("- **Total uncompressed size**: ");
    let ts = format_size(total);
    md.append(ts.as_str());
    md.append("\n");
    md.append("- **Archive size**: ");
    let az = format_size(archive_size);
    md.append(az.as_str());
    md.append("\n");
    push_types(&mut md, v);
    md.append("## Archive Contents\n\n");
    md.append("| # | Name | Size |\n");
    md.append("| --- | --- | --- |\n");
    push_content_rows(&mut md, v);
    md.append("\n");
    md
}

// ── Text files ────────────────────────────────────────────────────────────

/// The file types whose content is shown.
pub open spec fn is_text_ext(e: Seq<char>) -> bool {
    e == "txt"@ || e == "md"@ || e == "csv"@ || e == "json"@ || e == "html"@ || e == "xml"@ || e == "rtf"@
}

/// The language hint of a fenced code block for a file type.
pub open spec fn lang_hint_spec(ext: Seq<char>) -> Seq<char> {
    if ext == "json"@ {
        "json"@
    } else if ext == "html"@ || ext == "htm"@ {
        "html"@
    } else if ext == "xml"@ {
        "xml"@
    } else if ext == "csv"@ {
        "csv"@
    } else if ext == "md"@ || ext == "markdown"@ {
        "markdown"@
    } else if ext == "rtf"@ {
        "rtf"@
    } else {
        ""@
    }
}

/// Return a fenced-code-block language hint for a given file extension.
pub fn lang_hint(ext: &str) -> (r: &'static str)
    ensures
        r@ == lang_hint_spec(ext@),
{
    if str_eq(ext, "json") {
        "json"
    } else if str_eq(ext, "html") || str_eq(ext, "htm") {
        "html"
    } else if str_eq(ext, "xml") {
        "xml"
    } else if str_eq(ext, "csv") {
        "csv"
    } else if str_eq(ext, "md") || str_eq(ext, "markdown") {
        "markdown"
    } else if str_eq(ext, "rtf") {
        "rtf"
    } else {
        ""
    }
}

/// Whether the content of files of this type is shown.
fn is_text_type(ext: &str) -> (r: bool)
    ensures
        r == is_text_ext(ext@),
{
    str_eq(ext, "txt") || str_eq(ext, "md") || str_eq(ext, "csv") || str_eq(ext, "json") || str_eq(ext, "html")
        || str_eq(ext, "xml") || str_eq(ext, "rtf")
}

/// The shown content of a text file: when it is longer than 50 000 bytes,
/// its longest prefix of at most 50 000 bytes that ends on a character
/// boundary, followed by a truncation note; otherwise the whole text.
pub open spec fn shown_content(content: Seq<char>) -> Seq<char> {
    if encode_utf8(content).len() > 50000 {
        content.take(chars_within(content, 50000) as int) + "\n\n*... (truncated)*"@
    } else {
        content
    }
}

/// The section of one text file.
pub open spec fn file_section(name: Seq<char>, ext: Seq<char>, body: Seq<char>) -> Seq<char> {
    "## File: `"@ + name + "`\n\n"@ + "```"@ + lang_hint_spec(ext) + "\n"@ + body + "\n```\n\n"@
}

/// The sections of the text files among the entries, with their number:
/// entries that are not directories and whose type (lower-cased) is a text
/// type are read; one whose text cannot be read is passed over. An entry
/// that cannot be opened ends it with the ZIP reader's message.
pub open spec fn text_sections(data: Seq<u8>, l: Seq<(Seq<char>, u64)>) -> Result<(Seq<char>, nat), Seq<char>>
    decreases l.len(),
{
    if l.len() == 0 {
        Ok((Seq::empty(), 0))
    } else {
        match text_sections(data, l.drop_last()) {
            Err(e) => Err(e),
            Ok(acc) => {
                let name = l.last().0;
                let ext = lowercase_of(entry_ext(name));
                if is_dir_name(name) || !is_text_ext(ext) {
                    Ok(acc)
                } else {
                    match zip_entry_text(data, (l.len() - 1) as nat) {
                        Err(m) => Err(m),
                        Ok(Err(_)) => Ok(acc),
                        Ok(Ok(content)) => Ok((acc.0 + file_section(name, ext, shown_content(content)), acc.1 + 1)),
                    }
                }
            },
        }
    }
}

proof fn lemma_sections_err(data: Seq<u8>, l: Seq<(Seq<char>, u64)>, k: int, e: Seq<char>)
    requires
        0 <= k <= l.len(),
        text_sections(data, l.take(k)) == Err::<(Seq<char>, nat), Seq<char>>(e),
    ensures
        text_sections(data, l) == Err::<(Seq<char>, nat), Seq<char>>(e),
    decreases l.len(),
{
    if k == l.len() {
        assert(l.take(k) =~= l);
    } else {
        assert(l.drop_last().take(k) =~= l.take(k));
        lemma_sections_err(data, l.drop_last(), k, e);
    }
}

proof fn lemma_sections_count(data: Seq<u8>, l: Seq<(Seq<char>, u64)>)
    ensures
        text_sections(data, l) matches Ok(acc) ==> acc.1 <= l.len(),
    decreases l.len(),
{
    if l.len() > 0 {
        lemma_sections_count(data, l.drop_last());
    }
}

/// Appends the shown content of a text (see `shown_content`).
fn push_shown_content(md: &mut String, content: &str)
    ensures
        final(md)@ == old(md)@ + shown_content(content@),
{
    let cs = chars_of(content);
    if utf8_len_below(cs.as_slice(), 50001) {
        md.append(content);
    } else {
        let (k, _bytes) = utf8_prefix_within(cs.as_slice(), 50000);
        let head = crate::text::slice_chars(cs.as_slice(), 0, k);
        assert(head@ =~= cs@.take(k as int));
        push_chars(md, head.as_slice());
        md.append("\n\n*... (truncated)*");
    }
}

/// The sections of the text files among the entries and their number.
fn read_text_sections(
    a: &mut zip::ZipArchive<std::io::Cursor<Vec<u8>>>,
    v: &Vec<ZipEntryInfo>,
) -> (r: Result<(String, usize), String>)
    requires
        well_recorded(v@),
    ensures
        zip_source(*final(a)) == zip_source(*old(a)),
        match text_sections(zip_source(*old(a)), listing_of(v@)) {
            Ok(acc) => r matches Ok(x) && x.0@ == acc.0 && x.1 == acc.1,
            Err(m) => r matches Err(msg) && msg@ == m,
        },
{
    let ghost data = zip_source(*a);
    let ghost l = listing_of(v@);
    let mut md = String::new();
    let mut count: usize = 0;
    let mut i: usize = 0;
    assert(l.take(0) =~= Seq::<(Seq<char>, u64)>::empty());
    while i < v.len()
        invariant
            i <= v@.len(),
            l == listing_of(v@),
            well_recorded(v@),
            zip_source(*a) == data,
            data == zip_source(*old(a)),
            text_sections(data, l.take(i as int)) == Ok::<(Seq<char>, nat), Seq<char>>((md@, count as nat)),
        decreases v@.len() - i,
    {
        assert(l.take(i + 1).drop_last() =~= l.take(i as int));
        assert(l.take(i + 1).last() == l[i as int]);
        proof {
            lemma_sections_count(data, l.take(i as int));
        }
        let e = &v[i];
        assert(e.is_dir == is_dir_name(l[i as int].0));
        assert(e.ext@ == entry_ext(l[i as int].0));
        assert(e.index == i);
        assert(e.name@ == l[i as int].0);
        if !e.is_dir {
            let ext_lower = to_lowercase(e.ext.as_str());
            if is_text_type(ext_lower.as_str()) {
                match zip_read_entry(a, e.index) {
                    Err(m) => {
                        proof {
                            lemma_sections_err(data, l, i + 1, m@);
                        }
                        return Err(m);
                    },
                    Ok(Err(_)) => {},
                    Ok(Ok(content)) => {
                        let ghost before = md@;
                        md.append("## File: `");
                        md.append(e.name.as_str());
                        md.append("`\n\n");
                        md.append("```");
                        md.append(lang_hint(ext_lower.as_str()));
                        md.append("\n");
                        push_shown_content(&mut md, content.as_str());
                        md.append("\n```\n\n");
                        assert(md@ =~= before + file_section(l[i as int].0, ext_lower@, shown_content(content@)));
                        count = count + 1;
                    },
                }
            }
        }
        i = i + 1;
    }
    assert(l.take(v@.len() as int) =~= l);
    Ok((md, count))
}

/// What converting a ZIP file's bytes gives.
pub open spec fn zip_outcome(r: Result<ConversionResult, ConvertError>, path: Seq<char>, data: Seq<u8>, file_size: u64) -> bool {
    match zip_open_error(data) {
        Some(m) => r matches Err(ConvertError::Zip(msg)) && msg@ == m,
        None => match entries_from(data, 0, zip_entry_count(data)) {
            Err(m) => r matches Err(ConvertError::Zip(msg)) && msg@ == m,
            Ok(l) => if total_size(l) > u64::MAX {
                r matches Err(ConvertError::Overflow)
            } else {
                match text_sections(data, l) {
                    Err(m) => r matches Err(ConvertError::Zip(msg)) && msg@ == m,
                    Ok(acc) => {
                        let md = listing_markdown(path_file_stem_of(path), l, file_size) + acc.0 + if acc.1 > 0 {
                            "*"@ + decimal(acc.1) + " text file(s) extracted*\n"@
                        } else {
                            Seq::empty()
                        };
                        r matches Ok(res) && is_full_result(res, md, path_file_stem_of(path), 1, InputFormat::Zip, path, file_size)
                    },
                }
            },
        },
    }
}

/// Convert a ZIP file, given its bytes: statistics, an index and the text
/// files it holds.
pub fn extract_zip_to_markdown(path: &str, data: &[u8], file_size: u64) -> (r: Result<ConversionResult, ConvertError>)
    ensures
        zip_outcome(r, path@, data@, file_size),
{
    let mut archive = match zip_open(data) {
        Ok(a) => a,
        Err(m) => return Err(ConvertError::Zip(m)),
    };
    let title = path_file_stem(path);
    let listing = match list_entries(&mut archive) {
        Ok(l) => l,
        Err(m) => return Err(ConvertError::Zip(m)),
    };
    let entries = entry_infos(&listing);
    let ghost l = listing_of(entries@);
    assert(entries_from(data@, 0, zip_entry_count(data@)) == Ok::<Seq<(Seq<char>, u64)>, Seq<char>>(l));
    let ghost tv = match &title {
        Some(t) => Some(t@),
        None => None,
    };
    assert(tv == path_file_stem_of(path@));
    let total = match sum_sizes(&entries) {
        Some(t) => t,
        None => return Err(ConvertError::Overflow),
    };
    let mut markdown = zip_listing_markdown(&title, &entries, total, file_size);
    let (sections, count) = match read_text_sections(&mut archive, &entries) {
        Ok(x) => x,
        Err(m) => return Err(ConvertError::Zip(m)),
    };
    let ghost listing_md = markdown@;
    markdown.append(sections.as_str());
    if count > 0 {
        markdown.append("*");
        push_decimal(&mut markdown, count as u128);
        markdown.append(" text file(s) extracted*\n");
    }
    assert(markdown@ =~= listing_md + sections@ + if count > 0 {
        "*"@ + decimal(count as nat) + " text file(s) extracted*\n"@
    } else {
        Seq::empty()
    });
    let metadata = DocumentMetadata {
        title,
        author: None,
        page_count: 1,
        word_count: 0,
        source_format: InputFormat::Zip,
        source_path: path.to_owned(),
        file_size_bytes: file_size,
    };
    Ok(ConversionResult::from_markdown(markdown, metadata))
}

} // verus!