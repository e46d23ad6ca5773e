//! ZIP archives, read with the `zip` crate.
//!
//! An archive is opened on a copy of the file's bytes. What the `zip` crate
//! reports for those bytes (whether they open, how many entries there are,
//! each entry's name and size, each entry's text) is named below as a
//! function of the bytes; the logic of the converters is stated over those
//! names.

use vstd::prelude::*;
use std::io::Read;
use crate::text::{str_eq, chars_of};

verus! {

/// The `zip` crate's archive reader.
#[verifier::external_type_specification]
#[verifier::external_body]
#[verifier::reject_recursive_types(R)]
pub struct ExZipArchive<R>(zip::ZipArchive<R>);

/// The standard in-memory reader that an archive reads from.
#[verifier::external_type_specification]
#[verifier::external_body]
#[verifier::reject_recursive_types(T)]
pub struct ExCursor<T>(std::io::Cursor<T>);

/// The bytes that an archive reads from.
pub uninterp spec fn zip_source(a: zip::ZipArchive<std::io::Cursor<Vec<u8>>>) -> Seq<u8>;

/// Why `ZipArchive::new` refuses the bytes (its error's message), or
/// nothing when it accepts them.
pub uninterp spec fn zip_open_error(data: Seq<u8>) -> Option<Seq<char>>;

/// `ZipArchive::len` for an archive opened on the bytes: the number of
/// entries in its central directory.
pub uninterp spec fn zip_entry_count(data: Seq<u8>) -> nat;

/// `ZipArchive::by_index` for entry `i`: the entry's name and uncompressed
/// size, or the error's message.
pub uninterp spec fn zip_entry(data: Seq<u8>, i: nat) -> Result<(Seq<char>, u64), Seq<char>>;

/// Reading entry `i` to a string: the outer error is that of
/// `ZipArchive::by_index`, the inner one that of `Read::read_to_string`
/// (which also fails on text that is not UTF-8); otherwise the text.
pub uninterp spec fn zip_entry_text(data: Seq<u8>, i: nat) -> Result<Result<Seq<char>, Seq<char>>, Seq<char>>;

/// `ZipArchive::new` on a copy of the bytes: the archive, which reads from
/// those bytes, or the error's message.
#[verifier::external_body]
pub(crate) fn zip_open(data: &[u8]) -> (r: Result<zip::ZipArchive<std::io::Cursor<Vec<u8>>>, String>)
    ensures
        match r {
            Ok(a) => zip_open_error(data@) is None && zip_source(a) == data@,
            Err(m) => zip_open_error(data@) == Some(m@),
        },
{
    zip::ZipArchive::new(std::io::Cursor::new(data.to_vec())).map_err(|e| e.to_string())
}

/// `ZipArchive::len`: the number of entries.
#[verifier::external_body]
pub(crate) fn zip_len(a: &zip::ZipArchive<std::io::Cursor<Vec<u8>>>) -> (n: usize)
    ensures
        n == zip_entry_count(zip_source(*a)),
{
    a.len()
}

/// `ZipArchive::by_index`, with `ZipFile::name` and `ZipFile::size` of the
/// entry it gives, or the error's message. The archive keeps reading from
/// the same bytes.
#[verifier::external_body]
pub(crate) fn zip_entry_info(a: &mut zip::ZipArchive<std::io::Cursor<Vec<u8>>>, i: usize) -> (r: Result<(String, u64), String>)
    ensures
        zip_source(*final(a)) == zip_source(*old(a)),
        match r {
            Ok(e) => zip_entry(zip_source(*old(a)), i as nat) == Ok::<(Seq<char>, u64), Seq<char>>((e.0@, e.1)),
            Err(m) => zip_entry(zip_source(*old(a)), i as nat) == Err::<(Seq<char>, u64), Seq<char>>(m@),
        },
{
    match a.by_index(i) {
        Ok(f) => Ok((f.name().to_string(), f.size())),
        Err(e) => Err(e.to_string()),
    }
}

/// `Read::read_to_string` on the entry that `ZipArchive::by_index` gives:
/// the outer error is that of `by_index`, the inner one that of the read.
/// The archive keeps reading from the same bytes.
#[verifier::external_body]
pub(crate) fn zip_read_entry(a: &mut zip::ZipArchive<std::io::Cursor<Vec<u8>>>, i: usize) -> (r: Result<Result<String, String>, String>)
    ensures
        zip_source(*final(a)) == zip_source(*old(a)),
        match r {
            Ok(Ok(t)) => zip_entry_text(zip_source(*old(a)), i as nat) == Ok::<Result<Seq<char>, Seq<char>>, Seq<char>>(Ok(t@)),
            Ok(Err(m)) => zip_entry_text(zip_source(*old(a)), i as nat) == Ok::<Result<Seq<char>, Seq<char>>, Seq<char>>(Err(m@)),
            Err(m) => zip_entry_text(zip_source(*old(a)), i as nat) == Err::<Result<Seq<char>, Seq<char>>, Seq<char>>(m@),
        },
{
    let mut f = match a.by_index(i) {
        Ok(f) => f,
        Err(e) => return Err(e.to_string()),
    };
    let mut s = String::new();
    Ok(f.read_to_string(&mut s).map(|_| s).map_err(|e| e.to_string()))
}

/// The `zip` crate's rule for directory entries: the name ends in `/` or `\`.
pub open spec fn is_dir_name(name: Seq<char>) -> bool {
    name.len() > 0 && (name.last() == '/' || name.last() == '\\')
}

/// Whether an entry name denotes a directory (`ZipFile::is_dir`).
pub fn entry_is_dir(name: &str) -> (r: bool)
    ensures
        r == is_dir_name(name@),
{
    let cs = chars_of(name);
    cs.len() > 0 && (cs[cs.len() - 1] == '/' || cs[cs.len() - 1] == '\\')
}

/// The entries `i..n` in order, as (name, size); the first failing entry's
/// error ends the listing.
pub open spec fn entries_from(data: Seq<u8>, i: nat, n: nat) -> Result<Seq<(Seq<char>, u64)>, Seq<char>>
    decreases n - i,
{
    if i >= n {
        Ok(Seq::empty())
    } else {
        match zip_entry(data, i) {
            Err(m) => Err(m),
            Ok(e) => match entries_from(data, i + 1, n) {
                Err(m) => Err(m),
                Ok(rest) => Ok(seq![e] + rest),
            },
        }
    }
}

/// All entries of the archive, as (name, size).
pub fn list_entries(a: &mut zip::ZipArchive<std::io::Cursor<Vec<u8>>>) -> (r: Result<Vec<(String, u64)>, String>)
    ensures
        zip_source(*final(a)) == zip_source(*old(a)),
        match r {
            Ok(v) => entries_from(zip_source(*old(a)), 0, zip_entry_count(zip_source(*old(a))))
                == Ok::<Seq<(Seq<char>, u64)>, Seq<char>>(v@.map_values(|e: (String, u64)| (e.0@, e.1))),
            Err(m) => entries_from(zip_source(*old(a)), 0, zip_entry_count(zip_source(*old(a))))
                == Err::<Seq<(Seq<char>, u64)>, Seq<char>>(m@),
        },
{
    let ghost data = zip_source(*a);
    let n = zip_len(a);
    let mut v: Vec<(String, u64)> = Vec::new();
    let mut i: usize = 0;
    while i < n
        invariant
            i <= n,
            n == zip_entry_count(data),
            zip_source(*a) == data,
            data == zip_source(*old(a)),
            entries_from(data, 0, n as nat) == match entries_from(data, i as nat, n as nat) {
                Err(m) => Err(m),
                Ok(rest) => Ok(v@.map_values(|e: (String, u64)| (e.0@, e.1)) + rest),
            },
        decreases n - i,
    {
        match zip_entry_info(a, i) {
            Ok(e) => {
                let ghost ev = (e.0@, e.1);
                let ghost old_map = v@.map_values(|e: (String, u64)| (e.0@, e.1));
                v.push(e);
                assert(v@.map_values(|e: (String, u64)| (e.0@, e.1)) =~= old_map.push(ev));
                proof {
                    assert(entries_from(data, i as nat, n as nat) == match entries_from(data, (i + 1) as nat, n as nat) {
                        Err(m) => Err(m),
                        Ok(rest) => Ok(seq![ev] + rest),
                    });
                    match entries_from(data, (i + 1) as nat, n as nat) {
                        Ok(rest) => {
                            assert(old_map + (seq![ev] + rest) =~= old_map.push(ev) + rest);
                        },
                        Err(_) => {},
                    }
                }
            },
            Err(m) => {
                return Err(m);
            },
        }
        i = i + 1;
    }
    assert(v@.map_values(|e: (String, u64)| (e.0@, e.1)) + Seq::<(Seq<char>, u64)>::empty()
        =~= v@.map_values(|e: (String, u64)| (e.0@, e.1)));
    Ok(v)
}

/// The text of the first entry named `target` among entries `i..n`: the
/// search reads each entry in turn, and an entry that cannot be read, or
/// the target's text that cannot be read, ends it with that error.
pub open spec fn entry_search(data: Seq<u8>, target: Seq<char>, i: nat, n: nat) -> Result<Option<Seq<char>>, Seq<char>>
    decreases n - i,
{
    if i >= n {
        Ok(None)
    } else {
        match zip_entry(data, i) {
            Err(m) => Err(m),
            Ok(e) => if e.0 == target {
                match zip_entry_text(data, i) {
                    Err(m) => Err(m),
                    Ok(Err(m)) => Err(m),
                    Ok(Ok(t)) => Ok(Some(t)),
                }
            } else {
                entry_search(data, target, i + 1, n)
            },
        }
    }
}

/// The text of the first entry named `target`, if there is one.
pub fn find_entry_text(a: &mut zip::ZipArchive<std::io::Cursor<Vec<u8>>>, target: &str) -> (r: Result<Option<String>, String>)
    ensures
        zip_source(*final(a)) == zip_source(*old(a)),
        match r {
            Ok(Some(t)) => entry_search(zip_source(*old(a)), target@, 0, zip_entry_count(zip_source(*old(a))))
                == Ok::<Option<Seq<char>>, Seq<char>>(Some(t@)),
            Ok(None) => entry_search(zip_source(*old(a)), target@, 0, zip_entry_count(zip_source(*old(a))))
                == Ok::<Option<Seq<char>>, Seq<char>>(None),
            Err(m) => entry_search(zip_source(*old(a)), target@, 0, zip_entry_count(zip_source(*old(a))))
                == Err::<Option<Seq<char>>, Seq<char>>(m@),
        },
{
    let ghost data = zip_source(*a);
    let n = zip_len(a);
    let mut i: usize = 0;
    while i < n
        invariant
            i <= n,
            n == zip_entry_count(data),
            zip_source(*a) == data,
            data == zip_source(*old(a)),
            entry_search(data, target@, 0, n as nat) == entry_search(data, target@, i as nat, n as nat),
        decreases n - i,
    {
        match zip_entry_info(a, i) {
            Ok(e) => {
                if str_eq(e.0.as_str(), target) {
                    return match zip_read_entry(a, i) {
                        Ok(Ok(t)) => Ok(Some(t)),
                        Ok(Err(m)) => Err(m),
                        Err(m) => Err(m),
                    };
                }
            },
            Err(m) => {
                return Err(m);
            },
        }
        i = i + 1;
    }
    Ok(None)
}

} // verus!
