//! What the viewer has from the JSON, JSON5 and URL parsers: each parser is
//! called in one place. Where a parser's result depends on the text alone it
//! is named, so that the rules built on it can be stated exactly.

use crate::value::{Json, JsonEntry, JsonValue, Member};
use vstd::prelude::*;

verus! {

/// A value as `serde_json` holds it.
#[verifier::external_type_specification]
#[verifier::external_body]
pub struct ExValue(serde_json::Value);

/// What a `serde_json::Value` holds: its variant and fields, a number by the
/// text that its `Display` gives, an object's entries in iteration order.
pub uninterp spec fn json_of(value: serde_json::Value) -> Json;

/// What `serde_json::from_str` makes of a text: the value it parses to, or
/// `None` where it reports an error.
pub uninterp spec fn strict_json(text: Seq<char>) -> Option<Json>;

/// The lower-case hexadecimal digit for `d`, where `0 <= d < 16`.
pub open spec fn hex_digit(d: int) -> char {
    if d == 0 {
        '0'
    } else if d == 1 {
        '1'
    } else if d == 2 {
        '2'
    } else if d == 3 {
        '3'
    } else if d == 4 {
        '4'
    } else if d == 5 {
        '5'
    } else if d == 6 {
        '6'
    } else if d == 7 {
        '7'
    } else if d == 8 {
        '8'
    } else if d == 9 {
        '9'
    } else if d == 10 {
        'a'
    } else if d == 11 {
        'b'
    } else if d == 12 {
        'c'
    } else if d == 13 {
        'd'
    } else if d == 14 {
        'e'
    } else {
        'f'
    }
}

/// How one character stands inside a JSON string literal: a double quote
/// and a backslash behind a backslash, the backspace, form feed, line
/// feed, carriage return and tab by their short escapes, every other
/// character below U+0020 as `\u00` and two hexadecimal digits, and every
/// other character as it is.
pub open spec fn escaped_char(c: char) -> Seq<char> {
    if c == '"' {
        seq!['\\', '"']
    } else if c == '\\' {
        seq!['\\', '\\']
    } else if c == '\u{8}' {
        seq!['\\', 'b']
    } else if c == '\u{c}' {
        seq!['\\', 'f']
    } else if c == '\n' {
        seq!['\\', 'n']
    } else if c == '\r' {
        seq!['\\', 'r']
    } else if c == '\t' {
        seq!['\\', 't']
    } else if (c as int) < 0x20 {
        seq!['\\', 'u', '0', '0', hex_digit((c as int) / 16), hex_digit((c as int) % 16)]
    } else {
        seq![c]
    }
}

/// The characters of a text, each as it stands inside a JSON string
/// literal.
pub open spec fn escaped(text: Seq<char>) -> Seq<char>
    decreases text.len(),
{
    if text.len() == 0 {
        Seq::empty()
    } else {
        escaped(text.drop_last()) + escaped_char(text.last())
    }
}

/// The JSON string literal of a text: the escaped text between double
/// quotes.
pub open spec fn json_quoted(text: Seq<char>) -> Seq<char> {
    seq!['"'] + escaped(text) + seq!['"']
}

/// The model of a parsed URL: its scheme and its serialization.
pub struct UrlParts {
    pub scheme: Seq<char>,
    pub href: Seq<char>,
}

/// What `url::Url::parse` makes of a text: the scheme and the serialization
/// of the URL it parses to, or `None` where it reports an error.
pub uninterp spec fn url_parts(text: Seq<char>) -> Option<UrlParts>;

/// A parsed URL, by its scheme and its serialization.
#[derive(Debug, PartialEq, Eq)]
pub struct ParsedUrl {
    pub scheme: String,
    pub href: String,
}

impl View for ParsedUrl {
    type V = UrlParts;

    open spec fn view(&self) -> UrlParts {
        UrlParts { scheme: self.scheme@, href: self.href@ }
    }
}

/// Reads a `serde_json::Value` that is no container: `Number::to_string`
/// gives a number's text. Trusted: the result has the model that `json_of`
/// names, and is `None` for an array and for an object only.
#[verifier::external_body]
fn scalar_of(value: &serde_json::Value) -> (r: Option<JsonValue>)
    ensures
        match r {
            Some(scalar) => scalar@ == json_of(*value) && !(scalar is Array) && !(scalar
                is Object),
            None => json_of(*value) is Array || json_of(*value) is Object,
        },
{
    match value {
        serde_json::Value::Null => Some(JsonValue::Null),
        serde_json::Value::Bool(b) => Some(JsonValue::Bool(*b)),
        serde_json::Value::Number(n) => Some(JsonValue::Number(n.to_string())),
        serde_json::Value::String(s) => Some(JsonValue::String(s.clone())),
        serde_json::Value::Array(_) => None,
        serde_json::Value::Object(_) => None,
    }
}

/// Hands out the items of a `serde_json::Value` that is an array, in order.
/// Trusted: they are the items of the model that `json_of` names.
#[verifier::external_body]
fn items_of(value: &serde_json::Value) -> (r: Option<Vec<&serde_json::Value>>)
    ensures
        match r {
            Some(items) => {
                &&& json_of(*value) matches Json::Array(models)
                &&& models.len() == items@.len()
                &&& forall|i: int| 0 <= i < items@.len() ==> json_of(*items@[i]) == models[i]
            },
            None => !(json_of(*value) is Array),
        },
{
    match value {
        serde_json::Value::Array(items) => Some(items.iter().collect()),
        _ => None,
    }
}

/// Hands out the keys of a `serde_json::Value` that is an object, in the
/// order of `Map::keys`; no key for another value. Trusted: they are the
/// keys of the model that `json_of` names.
#[verifier::external_body]
fn keys_of(value: &serde_json::Value) -> (r: Vec<String>)
    ensures
        json_of(*value) matches Json::Object(models) ==> {
            &&& models.len() == r@.len()
            &&& forall|i: int| 0 <= i < r@.len() ==> r@[i]@ == models[i].key
        },
{
    match value {
        serde_json::Value::Object(entries) => entries.keys().cloned().collect(),
        _ => Vec::new(),
    }
}

/// Hands out the values of a `serde_json::Value` that is an object, in the
/// order of `Map::values`, which is that of `Map::keys`; no value for
/// another value. Trusted: they are the values of the model that `json_of`
/// names.
#[verifier::external_body]
fn values_of(value: &serde_json::Value) -> (r: Vec<&serde_json::Value>)
    ensures
        json_of(*value) matches Json::Object(models) ==> {
            &&& models.len() == r@.len()
            &&& forall|i: int| 0 <= i < r@.len() ==> json_of(*r@[i]) == models[i].value
        },
{
    match value {
        serde_json::Value::Object(entries) => entries.values().collect(),
        _ => Vec::new(),
    }
}

fn read_items(items: &Vec<&serde_json::Value>, Ghost(models): Ghost<Seq<Json>>) -> (r: Vec<
    JsonValue,
>)
    requires
        models.len() == items@.len(),
        forall|i: int| 0 <= i < items@.len() ==> json_of(*items@[i]) == models[i],
    ensures
        r@.len() == items@.len(),
        forall|i: int| 0 <= i < items@.len() ==> (#[trigger] r@[i])@ == models[i],
    decreases models,
{
    let mut r: Vec<JsonValue> = Vec::new();
    let mut k: usize = 0;
    while k < items.len()
        invariant
            k <= items@.len(),
            r@.len() == k,
            models.len() == items@.len(),
            forall|i: int| 0 <= i < items@.len() ==> json_of(*items@[i]) == models[i],
            forall|i: int| 0 <= i < k ==> (#[trigger] r@[i])@ == models[i],
        decreases items@.len() - k,
    {
        proof {
            assert(json_of(*items@[k as int]) == models[k as int]);
        }
        r.push(read_value(items[k]));
        k += 1;
    }
    r
}

fn read_members(
    keys: &Vec<String>,
    values: &Vec<&serde_json::Value>,
    Ghost(models): Ghost<Seq<Member>>,
) -> (r: Vec<JsonEntry>)
    requires
        models.len() == keys@.len(),
        models.len() == values@.len(),
        forall|i: int| 0 <= i < keys@.len() ==> keys@[i]@ == models[i].key,
        forall|i: int| 0 <= i < values@.len() ==> json_of(*values@[i]) == models[i].value,
    ensures
        r@.len() == models.len(),
        forall|i: int|
            0 <= i < r@.len() ==> (#[trigger] r@[i]).key@ == models[i].key && r@[i].value@
                == models[i].value,
    decreases models,
{
    let mut r: Vec<JsonEntry> = Vec::new();
    let mut k: usize = 0;
    while k < keys.len()
        invariant
            k <= keys@.len(),
            r@.len() == k,
            models.len() == keys@.len(),
            models.len() == values@.len(),
            forall|i: int| 0 <= i < keys@.len() ==> keys@[i]@ == models[i].key,
            forall|i: int| 0 <= i < values@.len() ==> json_of(*values@[i]) == models[i].value,
            forall|i: int|
                0 <= i < k ==> (#[trigger] r@[i]).key@ == models[i].key && r@[i].value@
                    == models[i].value,
        decreases keys@.len() - k,
    {
        proof {
            assert(json_of(*values@[k as int]) == models[k as int].value);
        }
        let value = read_value(values[k]);
        r.push(JsonEntry { key: keys[k].clone(), value });
        k += 1;
    }
    r
}

/// Copies a `serde_json::Value` into a [`JsonValue`].
fn read_value(value: &serde_json::Value) -> (r: JsonValue)
    ensures
        r@ == json_of(*value),
    decreases json_of(*value),
{
    if let Some(scalar) = scalar_of(value) {
        return scalar;
    }
    if let Some(items) = items_of(value) {
        let r = JsonValue::Array(read_items(&items, Ghost(json_of(*value)->Array_0)));
        proof {
            r.lemma_children();
            assert(r@->Array_0 =~= json_of(*value)->Array_0);
        }
        return r;
    }
    let keys = keys_of(value);
    let values = values_of(value);
    let ghost models = json_of(*value)->Object_0;
    let r = JsonValue::Object(read_members(&keys, &values, Ghost(models)));
    proof {
        r.lemma_children();
        assert forall|i: int| 0 <= i < models.len() implies r@->Object_0[i] == models[i] by {
            assert(r@->Object_0[i].key == r->Object_0@[i].key@);
            assert(r@.child(i) == r.child_value(i)@);
        }
        assert(r@->Object_0 =~= models);
    }
    r
}

/// Calls `serde_json::from_str` for a `serde_json::Value`. Trusted: the
/// parser's answer depends on the text alone, so it is the one that
/// `strict_json` names.
#[verifier::external_body]
fn strict_from_str(text: &str) -> (r: Option<serde_json::Value>)
    ensures
        match r {
            Some(value) => strict_json(text@) == Some(json_of(value)),
            None => strict_json(text@) is None,
        },
{
    serde_json::from_str::<serde_json::Value>(text).ok()
}

/// Calls `json5::from_str` for a `serde_json::Value`. Nothing is claimed of
/// the result: the parser gives up where the call stack runs short or a
/// process-wide call budget is spent, so one text may parse in one call and
/// not in another.
#[verifier::external_body]
fn relaxed_from_str(text: &str) -> (r: Option<serde_json::Value>) {
    json5::from_str::<serde_json::Value>(text).ok()
}

/// Calls `serde_json::to_string` on a text. Trusted: the result is the JSON
/// string literal of the text, escaped as `json_quoted` says.
#[verifier::external_body]
pub(crate) fn quote_string(text: &str) -> (r: String)
    ensures
        r@ == json_quoted(text@),
{
    serde_json::to_string(text).unwrap_or_default()
}

/// Calls `url::Url::parse`, and reads `scheme` and `as_str` of the URL.
/// Trusted: the parser's answer depends on the text alone, so the parts are
/// those that `url_parts` names.
#[verifier::external_body]
pub(crate) fn url_from_str(text: &str) -> (r: Option<ParsedUrl>)
    ensures
        match r {
            Some(url) => url_parts(text@) == Some(url@),
            None => url_parts(text@) is None,
        },
{
    url::Url::parse(text).ok().map(
        |u| ParsedUrl { scheme: u.scheme().to_string(), href: u.as_str().to_string() },
    )
}

/// The model of an optional value.
pub open spec fn option_json(value: Option<JsonValue>) -> Option<Json> {
    match value {
        Some(v) => Some(v@),
        None => None,
    }
}

/// Parses a text by the strict JSON grammar.
pub fn parse_strict(text: &str) -> (r: Option<JsonValue>)
    ensures
        option_json(r) == strict_json(text@),
{
    match strict_from_str(text) {
        Some(value) => Some(read_value(&value)),
        None => None,
    }
}

/// Parses a text by the relaxed (JSON5) grammar. Whether a text parses,
/// and to what, is the parser's to say, and it may say otherwise in another
/// call; what follows from the result is stated where the result is used.
pub fn parse_relaxed(text: &str) -> (r: Option<JsonValue>) {
    match relaxed_from_str(text) {
        Some(value) => Some(read_value(&value)),
        None => None,
    }
}

/// Whether `parsed` may be what parsing a text gives under the grammar that
/// `relaxed` selects: under the strict grammar it is what `strict_json`
/// names, and under the relaxed one any outcome is possible.
pub open spec fn possible_parse(text: Seq<char>, relaxed: bool, parsed: Option<Json>) -> bool {
    relaxed || parsed == strict_json(text)
}

/// Parses a text by the relaxed grammar if `relaxed` is set, and by the
/// strict one if not.
pub fn parse_json(text: &str, relaxed: bool) -> (r: Option<JsonValue>)
    ensures
        possible_parse(text@, relaxed, option_json(r)),
{
    if relaxed {
        parse_relaxed(text)
    } else {
        parse_strict(text)
    }
}

} // verus!
