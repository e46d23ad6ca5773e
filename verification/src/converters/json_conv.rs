//! JSON documents: pretty-printed, with a table for arrays of objects.

use vstd::prelude::*;
use crate::text::{push_decimal, decimal, str_eq, utf8_text};
use crate::utils::{InputFormat, path_file_stem, path_file_stem_of};
use super::{DocumentConverter, ConversionResult, ConvertError, DocumentMetadata};
use super::txt::is_full_result;
use super::zip_conv::{escape_pipe, escape_pipe_spec};
use crate::text::has_prefix;
use serde_json::Value;

verus! {

/// JSON to Markdown converter.
pub struct JsonConverter;

impl JsonConverter {
    pub fn new() -> (r: Self) {
        JsonConverter
    }
}

impl DocumentConverter for JsonConverter {
    open spec fn spec_format(&self) -> InputFormat {
        InputFormat::Json
    }

    fn format(&self) -> (r: InputFormat) {
        InputFormat::Json
    }
}

/// What a table cell shows of a JSON value: strings without quotes,
/// nothing for `null`, the compact JSON text of anything else.
pub enum JsonLeaf {
    Null,
    Str(String),
    Json(String),
}

/// The view of a table cell's value.
pub enum JsonLeafView {
    Null,
    Str(Seq<char>),
    Json(Seq<char>),
}

impl View for JsonLeaf {
    type V = JsonLeafView;

    open spec fn view(&self) -> JsonLeafView {
        match self {
            JsonLeaf::Null => JsonLeafView::Null,
            JsonLeaf::Str(s) => JsonLeafView::Str(s@),
            JsonLeaf::Json(s) => JsonLeafView::Json(s@),
        }
    }
}

/// The views of an object's fields.
pub open spec fn fields_view(f: Seq<(String, JsonLeaf)>) -> Seq<(Seq<char>, JsonLeafView)> {
    f.map_values(|x: (String, JsonLeaf)| (x.0@, x.1@))
}

/// The views of the items of an array.
pub open spec fn items_view(v: Seq<Option<Vec<(String, JsonLeaf)>>>) -> Seq<Option<Seq<(Seq<char>, JsonLeafView)>>> {
    v.map_values(|o: Option<Vec<(String, JsonLeaf)>>| match o {
        Some(f) => Some(fields_view(f@)),
        None => None,
    })
}

/// What `serde_json::to_string_pretty` gives for the value that
/// `serde_json::from_str` parses from the text, or the error's message.
pub uninterp spec fn json_pretty_of(raw: Seq<char>) -> Result<Seq<char>, Seq<char>>;

/// When the text parses to a JSON array: its items, each an object's
/// fields in the map's order (key, value as a cell shows it) or nothing for
/// an item that is not an object.
pub uninterp spec fn json_items_of(raw: Seq<char>) -> Option<Seq<Option<Seq<(Seq<char>, JsonLeafView)>>>>;

/// `serde_json::to_string_pretty` of the value parsed by `serde_json::from_str`.
#[verifier::external_body]
fn json_pretty(raw: &str) -> (r: Result<String, String>)
    ensures
        match r {
            Ok(p) => json_pretty_of(raw@) == Ok::<Seq<char>, Seq<char>>(p@),
            Err(m) => json_pretty_of(raw@) == Err::<Seq<char>, Seq<char>>(m@),
        },
{
    let v: serde_json::Value = serde_json::from_str(raw).map_err(|e| e.to_string())?;
    serde_json::to_string_pretty(&v).map_err(|e| e.to_string())
}

/// `serde_json::Value::as_array` of the parsed value, each item taken by
/// `as_object`, each field value as a string, `null` or its compact text.
#[verifier::external_body]
fn json_items(raw: &str) -> (r: Option<Vec<Option<Vec<(String, JsonLeaf)>>>>)
    ensures
        match r {
            Some(v) => json_items_of(raw@) == Some(items_view(v@)),
            None => json_items_of(raw@) is None,
        },
{
    let v: Value = serde_json::from_str(raw).ok()?;
    Some(v.as_array()?.iter().map(|it| it.as_object().map(|o| o.iter().map(|(k, x)| (k.clone(), match x {
        Value::Null => JsonLeaf::Null,
        Value::String(s) => JsonLeaf::Str(s.clone()),
        _ => JsonLeaf::Json(x.to_string()),
    })).collect())).collect())
}

/// The text of a table cell.
pub open spec fn leaf_text(v: JsonLeafView) -> Seq<char> {
    match v {
        JsonLeafView::Null => Seq::empty(),
        JsonLeafView::Str(s) => s,
        JsonLeafView::Json(t) => t,
    }
}

/// Format a JSON value as a human-readable string for table cells.
/// Strings are shown without quotes; other values as their JSON text.
pub fn format_json_value(value: &JsonLeaf) -> (r: String)
    ensures
        r@ == leaf_text(value@),
        match value@ {
            JsonLeafView::Null => r@.len() == 0,
            JsonLeafView::Str(s) => r@ == s,
            JsonLeafView::Json(t) => r@ == t,
        },
{
    match value {
        JsonLeaf::Null => String::new(),
        JsonLeaf::Str(s) => s.clone(),
        JsonLeaf::Json(t) => t.clone(),
    }
}

/// The value of the first field named `key`.
pub open spec fn field_value(fields: Seq<(Seq<char>, JsonLeafView)>, key: Seq<char>) -> Option<JsonLeafView>
    decreases fields.len(),
{
    if fields.len() == 0 {
        None
    } else if fields[0].0 == key {
        Some(fields[0].1)
    } else {
        field_value(fields.drop_first(), key)
    }
}

/// The cell of a row for a key: the field's text with `|` escaped, or nothing.
pub open spec fn row_cell(fields: Seq<(Seq<char>, JsonLeafView)>, key: Seq<char>) -> Seq<char> {
    match field_value(fields, key) {
        Some(v) => escape_pipe_spec(leaf_text(v)),
        None => escape_pipe_spec(Seq::empty()),
    }
}

/// Escaping `|` keeps every character and adds a backslash before each
/// `|`: the result is at least as long, and a text without `|` is kept as it is.
proof fn lemma_escape_keeps_text(t: Seq<char>)
    ensures
        escape_pipe_spec(t).len() >= t.len(),
        !t.contains('|') ==> escape_pipe_spec(t) == t,
    decreases t.len(),
{
    reveal_strlit("|");
    reveal_strlit("\\|");
    let bar = "|"@;
    assert(bar.len() == 1);
    if t.len() > 0 {
        if has_prefix(t, bar) {
            assert(escape_pipe_spec(t) == "\\|"@ + escape_pipe_spec(t.skip(1)));
            lemma_escape_keeps_text(t.skip(1));
            assert(t[0] == bar[0]);
            assert(t.contains('|'));
        } else {
            assert(escape_pipe_spec(t) == seq![t[0]] + escape_pipe_spec(t.drop_first()));
            lemma_escape_keeps_text(t.drop_first());
            if !t.contains('|') {
                assert(!t.drop_first().contains('|')) by {
                    if t.drop_first().contains('|') {
                        let j = choose|j: int| 0 <= j < t.drop_first().len() && t.drop_first()[j] == '|';
                        assert(t[j + 1] == '|');
                    }
                }
                assert(seq![t[0]] + t.drop_first() =~= t);
            }
        }
    }
}

/// A table cell shows its whole value: a string's characters, or for any
/// other value (number, boolean, array, object) its full JSON text, with
/// each `|` escaped; only `null` gives an empty cell. A cell is never
/// shorter than the value's text, and a text without `|` is shown as it is.
pub proof fn law_cell_shows_whole_value(fields: Seq<(Seq<char>, JsonLeafView)>, key: Seq<char>, v: JsonLeafView)
    requires
        field_value(fields, key) == Some(v),
    ensures
        v is Null ==> row_cell(fields, key).len() == 0,
        v matches JsonLeafView::Str(s) ==> row_cell(fields, key) == escape_pipe_spec(s) && row_cell(fields, key).len()
            >= s.len() && (!s.contains('|') ==> row_cell(fields, key) == s),
        v matches JsonLeafView::Json(t) ==> row_cell(fields, key) == escape_pipe_spec(t) && row_cell(fields, key).len()
            >= t.len() && (!t.contains('|') ==> row_cell(fields, key) == t),
{
    match v {
        JsonLeafView::Null => {
            lemma_escape_keeps_text(Seq::empty());
            assert(!Seq::<char>::empty().contains('|'));
        },
        JsonLeafView::Str(s) => {
            lemma_escape_keeps_text(s);
        },
        JsonLeafView::Json(t) => {
            lemma_escape_keeps_text(t);
        },
    }
}

/// The cells ` value |` of a row, one per key.
pub open spec fn row_line(fields: Seq<(Seq<char>, JsonLeafView)>, keys: Seq<Seq<char>>) -> Seq<char>
    decreases keys.len(),
{
    if keys.len() == 0 {
        Seq::empty()
    } else {
        row_line(fields, keys.drop_last()) + " "@ + row_cell(fields, keys.last()) + " |"@
    }
}

/// The header cells ` key |`.
pub open spec fn key_cells(keys: Seq<Seq<char>>) -> Seq<char>
    decreases keys.len(),
{
    if keys.len() == 0 {
        Seq::empty()
    } else {
        key_cells(keys.drop_last()) + " "@ + keys.last() + " |"@
    }
}

/// `n` separator cells.
pub open spec fn rule_cells(n: nat) -> Seq<char>
    decreases n,
{
    if n == 0 {
        Seq::empty()
    } else {
        rule_cells((n - 1) as nat) + " --- |"@
    }
}

/// The rows of the table, one per item.
pub open spec fn item_lines(items: Seq<Seq<(Seq<char>, JsonLeafView)>>, keys: Seq<Seq<char>>) -> Seq<char>
    decreases items.len(),
{
    if items.len() == 0 {
        Seq::empty()
    } else {
        item_lines(items.drop_last(), keys) + "|"@ + row_line(items.last(), keys) + "\n"@
    }
}

/// Whether every item is an object.
pub open spec fn all_objects(items: Seq<Option<Seq<(Seq<char>, JsonLeafView)>>>) -> bool {
    forall|i: int| 0 <= i < items.len() ==> (#[trigger] items[i]) is Some
}

/// The fields of the objects.
pub open spec fn object_fields(items: Seq<Option<Seq<(Seq<char>, JsonLeafView)>>>) -> Seq<Seq<(Seq<char>, JsonLeafView)>> {
    items.map_values(|o: Option<Seq<(Seq<char>, JsonLeafView)>>| match o {
        Some(f) => f,
        None => Seq::empty(),
    })
}

/// The tabular view of a non-empty array of objects: columns are the keys
/// of the first object.
pub open spec fn table_view(items: Seq<Option<Seq<(Seq<char>, JsonLeafView)>>>) -> Seq<char> {
    if items.len() > 0 && all_objects(items) {
        let objs = object_fields(items);
        let keys = objs[0].map_values(|f: (Seq<char>, JsonLeafView)| f.0);
        "## Tabular View\n\n"@ + if keys.len() > 0 {
            "|"@ + key_cells(keys) + "\n"@ + "|"@ + rule_cells(keys.len()) + "\n"@ + item_lines(objs, keys) + "\n"@
                + "*"@ + decimal(items.len()) + " rows total*\n"@
        } else {
            Seq::empty()
        }
    } else {
        Seq::empty()
    }
}

/// The Markdown of a JSON document: the title, the pretty-printed JSON in a
/// fenced block, and the tabular view of an array of objects.
pub open spec fn json_markdown(title: Option<Seq<char>>, pretty: Seq<char>, items: Option<Seq<Option<Seq<(Seq<char>, JsonLeafView)>>>>) -> Seq<char> {
    (match title {
        Some(t) => "# "@ + t + "\n\n"@,
        None => Seq::empty(),
    }) + "```json\n"@ + pretty + "\n```\n\n"@ + match items {
        Some(v) => table_view(v),
        None => Seq::empty(),
    }
}

/// The cell of a row for a key.
fn cell_for(fields: &Vec<(String, JsonLeaf)>, key: &str) -> (r: String)
    ensures
        r@ == row_cell(fields_view(fields@), key@),
{
    let ghost fv = fields_view(fields@);
    let mut i: usize = 0;
    assert(fv.skip(0) =~= fv);
    while i < fields.len()
        invariant
            i <= fields@.len(),
            fv == fields_view(fields@),
            field_value(fv, key@) == field_value(fv.skip(i as int), key@),
        decreases fields@.len() - i,
    {
        assert(fv.skip(i as int)[0] == (fields@[i as int].0@, fields@[i as int].1@));
        if str_eq(fields[i].0.as_str(), key) {
            let text = format_json_value(&fields[i].1);
            return escape_pipe(text.as_str());
        }
        assert(fv.skip(i as int).drop_first() =~= fv.skip(i + 1));
        i = i + 1;
    }
    assert(fv.skip(i as int) =~= Seq::<(Seq<char>, JsonLeafView)>::empty());
    proof {
        reveal_strlit("");
    }
    assert(""@ =~= Seq::<char>::empty());
    escape_pipe("")
}

/// The tabular view of the items.
fn push_table(md: &mut String, items: &Vec<Option<Vec<(String, JsonLeaf)>>>)
    ensures
        final(md)@ == old(md)@ + table_view(items_view(items@)),
{
    let ghost iv = items_view(items@);
    let mut k: usize = 0;
    while k < items.len()
        invariant
            k <= items@.len(),
            iv == items_view(items@),
            forall|j: int| 0 <= j < k ==> (#[trigger] iv[j]) is Some,
        decreases items@.len() - k,
    {
        assert(iv[k as int] is Some <==> items@[k as int] is Some);
        if items[k].is_none() {
            return;
        }
        k = k + 1;
    }
    if items.len() == 0 {
        return;
    }
    let ghost objs = object_fields(iv);
    let first = match &items[0] {
        Some(f) => f,
        None => return,
    };
    let ghost keys = objs[0].map_values(|f: (Seq<char>, JsonLeafView)| f.0);
    assert(objs[0] == fields_view(first@));
    md.append("## Tabular View\n\n");
    if first.len() == 0 {
        assert(keys.len() == 0);
        return;
    }
    md.append("|");
    let ghost s1 = md@;
    let mut c: usize = 0;
    while c < first.len()
        invariant
            c <= first@.len(),
            keys == fields_view(first@).map_values(|f: (Seq<char>, JsonLeafView)| f.0),
            md@ == s1 + key_cells(keys.take(c as int)),
        decreases first@.len() - c,
    {
        assert(keys.take(c + 1).drop_last() =~= keys.take(c as int));
        assert(keys.take(c + 1).last() == first@[c as int].0@);
        md.append(" ");
        md.append(first[c].0.as_str());
        md.append(" |");
        c = c + 1;
    }
    assert(keys.take(first@.len() as int) =~= keys);
    md.append("\n");
    md.append("|");
    let ghost s2 = md@;
    let mut c2: usize = 0;
    while c2 < first.len()
        invariant
            c2 <= first@.len(),
            md@ == s2 + rule_cells(c2 as nat),
        decreases first@.len() - c2,
    {
        md.append(" --- |");
        c2 = c2 + 1;
    }
    md.append("\n");
    let ghost s3 = md@;
    let mut i: usize = 0;
    while i < items.len()
        invariant
            i <= items@.len(),
            iv == items_view(items@),
            objs == object_fields(iv),
            forall|j: int| 0 <= j < items@.len() ==> (#[trigger] iv[j]) is Some,
            keys == fields_view(first@).map_values(|f: (Seq<char>, JsonLeafView)| f.0),
            md@ == s3 + item_lines(objs.take(i as int), keys),
        decreases items@.len() - i,
    {
        assert(objs.take(i + 1).drop_last() =~= objs.take(i as int));
        md.append("|");
        let ghost s4 = md@;
        match &items[i] {
            Some(fields) => {
                assert(objs.take(i + 1).last() == fields_view(fields@));
                let mut c3: usize = 0;
                while c3 < first.len()
                    invariant
                        c3 <= first@.len(),
                        keys == fields_view(first@).map_values(|f: (Seq<char>, JsonLeafView)| f.0),
                        md@ == s4 + row_line(fields_view(fields@), keys.take(c3 as int)),
                    decreases first@.len() - c3,
                {
                    assert(keys.take(c3 + 1).drop_last() =~= keys.take(c3 as int));
                    assert(keys.take(c3 + 1).last() == first@[c3 as int].0@);
                    md.append(" ");
                    let cell = cell_for(fields, first[c3].0.as_str());
                    md.append(cell.as_str());
                    md.append(" |");
                    c3 = c3 + 1;
                }
                assert(keys.take(first@.len() as int) =~= keys);
            },
            None => {
                assert(iv[i as int] is None);
            },
        }
        md.append("\n");
        i = i + 1;
    }
    assert(objs.take(items@.len() as int) =~= objs);
    md.append("\n");
    md.append("*");
    push_decimal(md, items.len() as u128);
    md.append(" rows total*\n");
}

/// What converting a JSON file's bytes gives.
pub open spec fn json_outcome(r: Result<ConversionResult, ConvertError>, path: Seq<char>, data: Seq<u8>, file_size: u64) -> bool {
    if !vstd::utf8::valid_utf8(data) {
        r matches Err(ConvertError::NotUtf8)
    } else {
        let raw = vstd::utf8::decode_utf8(data);
        match json_pretty_of(raw) {
            Err(m) => r matches Err(ConvertError::Json(msg)) && msg@ == m,
            Ok(pretty) => {
                let md = json_markdown(path_file_stem_of(path), pretty, json_items_of(raw));
                r matches Ok(res) && is_full_result(res, md, path_file_stem_of(path), 1, InputFormat::Json, path, file_size)
            },
        }
    }
}

/// Convert a JSON file, given its bytes.
pub fn extract_json_to_markdown(path: &str, data: &[u8], file_size: u64) -> (r: Result<ConversionResult, ConvertError>)
    ensures
        json_outcome(r, path@, data@, file_size),
{
    let raw = match utf8_text(data) {
        Some(s) => s,
        None => return Err(ConvertError::NotUtf8),
    };
    let pretty = match json_pretty(raw.as_str()) {
        Ok(p) => p,
        Err(m) => return Err(ConvertError::Json(m)),
    };
    let title = path_file_stem(path);
    let mut markdown = String::new();
    match &title {
        Some(t) => {
            markdown.append("# ");
            markdown.append(t.as_str());
            markdown.append("\n\n");
        },
        None => {},
    }
    markdown.append("```json\n");
    markdown.append(pretty.as_str());
    markdown.append("\n```\n\n");
    match json_items(raw.as_str()) {
        Some(items) => push_table(&mut markdown, &items),
        None => {},
    }
    let metadata = DocumentMetadata {
        title,
        author: None,
        page_count: 1,
        word_count: 0,
        source_format: InputFormat::Json,
        source_path: path.to_owned(),
        file_size_bytes: file_size,
    };
    Ok(ConversionResult::from_markdown(markdown, metadata))
}

} // verus!
