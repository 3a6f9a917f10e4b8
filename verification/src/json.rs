//! JSON texts, read one level at a time through `serde_json`.
//!
//! A JSON value is carried as its compact serialization (the text
//! `serde_json::Value`'s `Display` writes); reading a text gives its top
//! level, with nested values again as compact texts.
use vstd::prelude::*;
use crate::map::text_eq;
use crate::text::{chars_of, push_all, push_str, string_of};
use serde_json::Value;

verus! {

/// The top level of a JSON value, nested values as compact texts.
#[derive(Debug)]
pub enum JsonTop {
    Null,
    Bool(bool),
    /// The number's text, and its value when it is an integer that fits `i64`.
    Number(String, Option<i64>),
    Str(String),
    Array(Vec<String>),
    Object(Vec<(String, String)>),
}

/// A [`JsonTop`] as plain values.
pub enum JsonTopView {
    Null,
    Bool(bool),
    Number(Seq<char>, Option<i64>),
    Str(Seq<char>),
    Array(Seq<Seq<char>>),
    Object(Seq<(Seq<char>, Seq<char>)>),
}

pub open spec fn pairs_view(v: Seq<(String, String)>) -> Seq<(Seq<char>, Seq<char>)> {
    v.map_values(|p: (String, String)| (p.0@, p.1@))
}

pub open spec fn texts_view(v: Seq<String>) -> Seq<Seq<char>> {
    v.map_values(|s: String| s@)
}

pub open spec fn top_view(t: JsonTop) -> JsonTopView {
    match t {
        JsonTop::Null => JsonTopView::Null,
        JsonTop::Bool(b) => JsonTopView::Bool(b),
        JsonTop::Number(s, i) => JsonTopView::Number(s@, i),
        JsonTop::Str(s) => JsonTopView::Str(s@),
        JsonTop::Array(v) => JsonTopView::Array(texts_view(v@)),
        JsonTop::Object(v) => JsonTopView::Object(pairs_view(v@)),
    }
}

/// What `serde_json::from_str::<serde_json::Value>` makes of a text, seen
/// one level deep; `None` when the text is not JSON.
pub uninterp spec fn json_top(text: Seq<char>) -> Option<JsonTopView>;

/// Parses `text` with `serde_json::from_str::<serde_json::Value>` and gives
/// its top level; nested values are given as their compact serialization
/// (`Value::to_string`), object entries in the map's iteration order. The
/// contract names the result (nothing here states JSON's grammar) and says
/// that an object's keys are distinct, as the keys of a `serde_json::Map`
/// are.
#[verifier::external_body]
pub(crate) fn json_inspect(text: &str) -> (r: Option<JsonTop>)
    ensures
        match r {
            Some(t) => json_top(text@) == Some(top_view(t)),
            None => json_top(text@) is None,
        },
        r matches Some(JsonTop::Object(v)) ==> forall|i: int, j: int|
            0 <= i < j < v@.len() ==> #[trigger] v@[i].0@ != #[trigger] v@[j].0@,
{
    match serde_json::from_str::<Value>(text) {
        Err(_) => None,
        Ok(Value::Null) => Some(JsonTop::Null),
        Ok(Value::Bool(b)) => Some(JsonTop::Bool(b)),
        Ok(Value::Number(n)) => Some(JsonTop::Number(n.to_string(), n.as_i64())),
        Ok(Value::String(s)) => Some(JsonTop::Str(s)),
        Ok(Value::Array(a)) => Some(JsonTop::Array(a.iter().map(|v| v.to_string()).collect())),
        Ok(Value::Object(m)) => Some(JsonTop::Object(m.iter().map(|(k, v)| (k.clone(), v.to_string())).collect())),
    }
}

/// The hexadecimal digit (lower case) of a value below 16.
pub open spec fn hex_digit(n: int) -> char {
    if n < 10 {
        (48 + n) as char
    } else {
        (87 + n) as char
    }
}

/// One character as it stands inside a JSON string literal: the quote, the
/// backslash and the control characters below U+0020 escaped (the short
/// forms where JSON has one, else `\u00XX` in lower-case hex), every other
/// character as it is.
pub open spec fn escaped_char(c: char) -> Seq<char> {
    if c == '"' {
        seq!['\\', '"']
    } else if c == '\\' {
        seq!['\\', '\\']
    } else if c == '\x08' {
        seq!['\\', 'b']
    } else if c == '\t' {
        seq!['\\', 't']
    } else if c == '\n' {
        seq!['\\', 'n']
    } else if c == '\x0c' {
        seq!['\\', 'f']
    } else if c == '\r' {
        seq!['\\', 'r']
    } else if (c as int) < 32 {
        seq!['\\', 'u', '0', '0', hex_digit((c as int) / 16), hex_digit((c as int) % 16)]
    } else {
        seq![c]
    }
}

/// The characters of a text, each escaped as in a JSON string literal.
#[verifier::opaque]
pub open spec fn escaped_text(s: Seq<char>) -> Seq<char>
    decreases s.len(),
{
    if s.len() == 0 {
        seq![]
    } else {
        escaped_text(s.drop_last()) + escaped_char(s.last())
    }
}

/// The JSON string literal for a text, as `serde_json` writes it: the
/// escaped text between double quotes.
pub open spec fn json_string_literal(s: Seq<char>) -> Seq<char> {
    seq!['"'] + escaped_text(s) + seq!['"']
}

/// Writes `s` as a JSON string literal with `serde_json`'s escaping
/// (`Value::String(s).to_string()`, which goes through
/// `format_escaped_str`): the contract states the literal character by
/// character.
#[verifier::external_body]
pub(crate) fn json_quote(s: &str) -> (r: String)
    ensures
        r@ == json_string_literal(s@),
{
    Value::String(s.to_string()).to_string()
}

/// The value text stored under `key` in a list of entries (the first match).
pub open spec fn entry_lookup(entries: Seq<(Seq<char>, Seq<char>)>, key: Seq<char>) -> Option<Seq<char>>
    decreases entries.len(),
{
    if entries.len() == 0 {
        None
    } else if entries[0].0 == key {
        Some(entries[0].1)
    } else {
        entry_lookup(entries.drop_first(), key)
    }
}

pub fn entry_get(entries: &Vec<(String, String)>, key: &str) -> (r: Option<String>)
    ensures
        match r {
            Some(v) => entry_lookup(pairs_view(entries@), key@) == Some(v@),
            None => entry_lookup(pairs_view(entries@), key@) is None,
        },
{
    let k = chars_of(key);
    let ghost pv = pairs_view(entries@);
    let mut i: usize = 0;
    assert(pv.skip(0) =~= pv);
    while i < entries.len()
        invariant
            i <= entries@.len(),
            pv == pairs_view(entries@),
            k@ == key@,
            entry_lookup(pv, key@) == entry_lookup(pv.skip(i as int), key@),
        decreases entries.len() - i,
    {
        assert(pv.skip(i as int)[0] == pv[i as int]);
        assert(pv.skip(i as int).drop_first() =~= pv.skip(i + 1));
        let name = chars_of(entries[i].0.as_str());
        if text_eq(&name, &k) {
            return Some(entries[i].1.clone());
        }
        i = i + 1;
    }
    None
}

/// The string stored under `key` in the JSON object `json`.
pub open spec fn string_member(json: Seq<char>, key: Seq<char>) -> Option<Seq<char>> {
    match json_top(json) {
        Some(JsonTopView::Object(entries)) => match entry_lookup(entries, key) {
            Some(v) => match json_top(v) {
                Some(JsonTopView::Str(s)) => Some(s),
                _ => None,
            },
            None => None,
        },
        _ => None,
    }
}

pub fn string_member_exec(json: &str, key: &str) -> (r: Option<String>)
    ensures
        match r {
            Some(s) => string_member(json@, key@) == Some(s@),
            None => string_member(json@, key@) is None,
        },
{
    match json_inspect(json) {
        Some(JsonTop::Object(entries)) => match entry_get(&entries, key) {
            Some(v) => match json_inspect(v.as_str()) {
                Some(JsonTop::Str(s)) => Some(s),
                _ => None,
            },
            None => None,
        },
        _ => None,
    }
}

/// A member value of a JSON object written with `serde_json`: a boolean, a
/// signed or unsigned integer, a string, a JSON text (read with `serde_json`
/// first), or an array of JSON texts.
pub enum JsonField {
    Bool(bool),
    Int(i64),
    Count(u64),
    Str(String),
    Text(String),
    Texts(Vec<String>),
}

/// A [`JsonField`] as plain values.
pub enum JsonFieldView {
    Bool(bool),
    Int(i64),
    Count(u64),
    Str(Seq<char>),
    Text(Seq<char>),
    Texts(Seq<Seq<char>>),
}

pub open spec fn field_view(f: JsonField) -> JsonFieldView {
    match f {
        JsonField::Bool(b) => JsonFieldView::Bool(b),
        JsonField::Int(n) => JsonFieldView::Int(n),
        JsonField::Count(n) => JsonFieldView::Count(n),
        JsonField::Str(s) => JsonFieldView::Str(s@),
        JsonField::Text(t) => JsonFieldView::Text(t@),
        JsonField::Texts(ts) => JsonFieldView::Texts(texts_view(ts@)),
    }
}

pub open spec fn fields_view(v: Seq<(String, JsonField)>) -> Seq<(Seq<char>, JsonFieldView)> {
    v.map_values(|p: (String, JsonField)| (p.0@, field_view(p.1)))
}

/// Every JSON text among the fields reads as JSON.
pub open spec fn texts_read(fields: Seq<(Seq<char>, JsonFieldView)>) -> bool {
    forall|i: int|
        0 <= i < fields.len() ==> match #[trigger] fields[i].1 {
            JsonFieldView::Text(t) => json_top(t) is Some,
            JsonFieldView::Texts(ts) => forall|j: int| 0 <= j < ts.len() ==> json_top(#[trigger] ts[j]) is Some,
            _ => true,
        }
}

/// No key occurs twice among the fields.
pub open spec fn distinct_keys(fields: Seq<(Seq<char>, JsonFieldView)>) -> bool {
    forall|i: int, j: int| 0 <= i < j < fields.len() ==> #[trigger] fields[i].0 != #[trigger] fields[j].0
}

/// A field that holds no JSON text of its own.
pub open spec fn is_scalar(f: JsonFieldView) -> bool {
    !(f is Text) && !(f is Texts)
}

/// No field holds a JSON text of its own.
pub open spec fn all_scalar(fields: Seq<(Seq<char>, JsonFieldView)>) -> bool {
    forall|k: int| 0 <= k < fields.len() ==> is_scalar(#[trigger] fields[k].1)
}

/// The compact text `serde_json` writes for a field that holds no JSON
/// text: `true` or `false`, the integer in decimal, or the string literal.
pub open spec fn scalar_text(f: JsonFieldView) -> Seq<char> {
    match f {
        JsonFieldView::Bool(b) => if b {
            "true"@
        } else {
            "false"@
        },
        JsonFieldView::Int(n) => crate::text::signed_decimal(n as int),
        JsonFieldView::Count(n) => crate::text::decimal(n as nat),
        JsonFieldView::Str(s) => json_string_literal(s),
        _ => seq![],
    }
}

/// The keys rise strictly, in the order of their characters (the order of
/// a `BTreeMap<String, _>`).
pub open spec fn keys_ascending(fields: Seq<(Seq<char>, JsonFieldView)>) -> bool {
    forall|i: int, j: int|
        0 <= i < j < fields.len() ==> crate::map::text_lt(#[trigger] fields[i].0, #[trigger] fields[j].0)
}

/// The members of an object, each key's literal, a colon and the value's
/// text, separated by commas.
pub open spec fn scalar_members(fields: Seq<(Seq<char>, JsonFieldView)>) -> Seq<char>
    decreases fields.len(),
{
    if fields.len() == 0 {
        seq![]
    } else if fields.len() == 1 {
        json_string_literal(fields[0].0) + ":"@ + scalar_text(fields[0].1)
    } else {
        scalar_members(fields.drop_last()) + ","@ + json_string_literal(fields.last().0) + ":"@ + scalar_text(
            fields.last().1,
        )
    }
}

/// The compact text `serde_json` writes for the object holding the given
/// fields.
pub uninterp spec fn object_text_of(fields: Seq<(Seq<char>, JsonFieldView)>) -> Seq<char>;

/// Writes, with `serde_json`, the object holding each field under its key (a
/// `Map` of `Value`s, each JSON text read with `serde_json::from_str`, then
/// `Value::Object(..).to_string()`). The contract names the text, and says
/// it is there exactly when every JSON text reads. Where no field holds a
/// JSON text it states more: the text is the members in the order of their
/// keys, compact, as `serde_json` writes a `BTreeMap`; it reads back as an
/// object; and, where no key occurs twice (the map keeps the last value of a
/// key), that object holds under each string field's key that string. (With
/// JSON texts among the fields no reading back is stated: `serde_json` reads
/// at most 128 levels of nesting, and a text that reads alone may be one
/// level too deep once it is a member.)
#[verifier::external_body]
pub(crate) fn json_object(fields: &Vec<(String, JsonField)>) -> (r: Option<String>)
    ensures
        r is Some <==> texts_read(fields_view(fields@)),
        r matches Some(t) ==> t@ == object_text_of(fields_view(fields@)),
        r matches Some(t) ==> (all_scalar(fields_view(fields@)) ==> json_top(t@) matches Some(
            JsonTopView::Object(_),
        )),
        r matches Some(t) ==> (all_scalar(fields_view(fields@)) && distinct_keys(fields_view(fields@))
            ==> forall|i: int|
            0 <= i < fields@.len() ==> (#[trigger] fields@[i].1 matches JsonField::Str(s) ==> string_member(
                t@,
                fields@[i].0@,
            ) == Some(s@))),
        r matches Some(t) ==> forall|sorted: Seq<(Seq<char>, JsonFieldView)>|
            #[trigger] keys_ascending(sorted) && sorted.to_multiset() == fields_view(fields@).to_multiset() && (
            forall|k: int| 0 <= k < sorted.len() ==> is_scalar(#[trigger] sorted[k].1)) ==> t@ == "{"@
                + scalar_members(sorted) + "}"@,
{
    let mut map = serde_json::Map::new();
    for (key, field) in fields.iter() {
        let value = match field {
            JsonField::Bool(b) => Value::Bool(*b),
            JsonField::Int(n) => Value::from(*n),
            JsonField::Count(n) => Value::from(*n),
            JsonField::Str(s) => Value::String(s.clone()),
            JsonField::Text(t) => serde_json::from_str::<Value>(t).ok()?,
            JsonField::Texts(ts) => Value::Array(ts.iter().map(|t| serde_json::from_str::<Value>(t)).collect::<Result<_, _>>().ok()?),
        };
        map.insert(key.clone(), value);
    }
    Some(Value::Object(map).to_string())
}

/// String entries as string fields.
pub open spec fn str_fields(entries: Seq<(Seq<char>, Seq<char>)>) -> Seq<(Seq<char>, JsonFieldView)> {
    entries.map_values(|e: (Seq<char>, Seq<char>)| (e.0, JsonFieldView::Str(e.1)))
}

/// The object holding each string under its key, written with `serde_json`;
/// reading it back gives each string under its key.
pub fn string_object(entries: &Vec<(String, String)>) -> (r: String)
    requires
        forall|i: int, j: int|
            0 <= i < j < entries@.len() ==> #[trigger] entries@[i].0@ != #[trigger] entries@[j].0@,
    ensures
        r@ == object_text_of(str_fields(pairs_view(entries@))),
        json_top(r@) is Some,
        forall|i: int|
            0 <= i < entries@.len() ==> string_member(r@, #[trigger] entries@[i].0@) == Some(entries@[i].1@),
{
    let mut fields: Vec<(String, JsonField)> = Vec::new();
    let mut i: usize = 0;
    while i < entries.len()
        invariant
            i <= entries@.len(),
            fields@.len() == i,
            forall|k: int|
                0 <= k < i ==> #[trigger] fields@[k].0@ == entries@[k].0@ && fields@[k].1 == JsonField::Str(
                    entries@[k].1,
                ),
        decreases entries.len() - i,
    {
        fields.push((entries[i].0.clone(), JsonField::Str(entries[i].1.clone())));
        i = i + 1;
    }
    let ghost fv = fields_view(fields@);
    assert(fv =~= str_fields(pairs_view(entries@)));
    assert(distinct_keys(fv)) by {
        assert forall|a: int, b: int| 0 <= a < b < fv.len() implies #[trigger] fv[a].0 != #[trigger] fv[b].0 by {
            assert(fv[a].0 == entries@[a].0@);
            assert(fv[b].0 == entries@[b].0@);
        }
    }
    assert(texts_read(fv)) by {
        assert forall|k: int| 0 <= k < fv.len() implies match #[trigger] fv[k].1 {
            JsonFieldView::Text(t) => json_top(t) is Some,
            JsonFieldView::Texts(ts) => forall|j: int| 0 <= j < ts.len() ==> json_top(#[trigger] ts[j]) is Some,
            _ => true,
        } by {
            assert(fv[k].1 == JsonFieldView::Str(entries@[k].1@));
        }
    }
    match json_object(&fields) {
        Some(t) => {
            assert forall|k: int| 0 <= k < entries@.len() implies string_member(t@, #[trigger] entries@[k].0@) == Some(
                entries@[k].1@,
            ) by {
                assert(fields@[k].0@ == entries@[k].0@);
                assert(fields@[k].1 matches JsonField::Str(s) && s@ == entries@[k].1@);
            }
            t
        },
        None => {
            assert(false);
            String::new()
        },
    }
}

/// The value text stored under `key` in the JSON object `json`.
pub open spec fn member(json: Seq<char>, key: Seq<char>) -> Option<Seq<char>> {
    match json_top(json) {
        Some(JsonTopView::Object(entries)) => entry_lookup(entries, key),
        _ => None,
    }
}

pub fn member_exec(json: &str, key: &str) -> (r: Option<String>)
    ensures
        match r {
            Some(s) => member(json@, key@) == Some(s@),
            None => member(json@, key@) is None,
        },
{
    match json_inspect(json) {
        Some(JsonTop::Object(entries)) => entry_get(&entries, key),
        _ => None,
    }
}

/// The items of a JSON array, as compact texts.
pub open spec fn array_items(json: Seq<char>) -> Option<Seq<Seq<char>>> {
    match json_top(json) {
        Some(JsonTopView::Array(items)) => Some(items),
        _ => None,
    }
}

pub fn array_items_exec(json: &str) -> (r: Option<Vec<String>>)
    ensures
        match r {
            Some(v) => array_items(json@) == Some(texts_view(v@)),
            None => array_items(json@) is None,
        },
{
    match json_inspect(json) {
        Some(JsonTop::Array(items)) => Some(items),
        _ => None,
    }
}

/// The string a JSON text holds (`Value::as_str`).
pub open spec fn as_string(json: Seq<char>) -> Option<Seq<char>> {
    match json_top(json) {
        Some(JsonTopView::Str(s)) => Some(s),
        _ => None,
    }
}

pub fn as_string_exec(json: &str) -> (r: Option<String>)
    ensures
        match r {
            Some(v) => as_string(json@) == Some(v@),
            None => as_string(json@) is None,
        },
{
    match json_inspect(json) {
        Some(JsonTop::Str(s)) => Some(s),
        _ => None,
    }
}

/// The integer a JSON text holds when it fits `i64` (`Value::as_i64`).
pub open spec fn as_int(json: Seq<char>) -> Option<i64> {
    match json_top(json) {
        Some(JsonTopView::Number(_, i)) => i,
        _ => None,
    }
}

pub fn as_int_exec(json: &str) -> (r: Option<i64>)
    ensures
        r == as_int(json@),
{
    match json_inspect(json) {
        Some(JsonTop::Number(_, i)) => i,
        _ => None,
    }
}

} // verus!
