//! The JSON value that the viewer shows, and its mathematical model.

use crate::parse::{json_quoted, quote_string};
use vstd::prelude::*;
use vstd::string::StringExecFns;

verus! {

/// The mathematical model of a JSON value. An object keeps its entries in
/// the order in which they were written.
pub enum Json {
    Null,
    Bool(bool),
    Number(Seq<char>),
    String(Seq<char>),
    Array(Seq<Json>),
    Object(Seq<Member>),
}

/// The model of one entry of an object.
pub struct Member {
    pub key: Seq<char>,
    pub value: Json,
}

/// A JSON value. A number is held as text, so that no digit of it is lost.
#[derive(Debug, PartialEq, Eq)]
pub enum JsonValue {
    Null,
    Bool(bool),
    Number(String),
    String(String),
    Array(Vec<JsonValue>),
    Object(Vec<JsonEntry>),
}

/// One entry of an object: a key and the value written under it.
#[derive(Debug, PartialEq, Eq)]
pub struct JsonEntry {
    pub key: String,
    pub value: JsonValue,
}

impl View for JsonValue {
    type V = Json;

    open spec fn view(&self) -> Json
        decreases self,
    {
        match self {
            JsonValue::Null => Json::Null,
            JsonValue::Bool(b) => Json::Bool(*b),
            JsonValue::Number(text) => Json::Number(text@),
            JsonValue::String(text) => Json::String(text@),
            JsonValue::Array(items) => Json::Array(
                Seq::new(
                    items@.len(),
                    |i: int|
                        if 0 <= i < items@.len() {
                            items@[i].view()
                        } else {
                            Json::Null
                        },
                ),
            ),
            JsonValue::Object(entries) => Json::Object(
                Seq::new(
                    entries@.len(),
                    |i: int|
                        if 0 <= i < entries@.len() {
                            Member { key: entries@[i].key@, value: entries@[i].value.view() }
                        } else {
                            Member { key: Seq::empty(), value: Json::Null }
                        },
                ),
            ),
        }
    }
}

impl Json {
    /// The number of direct children: of items in an array, of entries in an
    /// object, and 0 for every other value.
    pub open spec fn length(self) -> nat {
        match self {
            Json::Array(items) => items.len(),
            Json::Object(entries) => entries.len(),
            _ => 0,
        }
    }

    /// The child at index `i`: an array's item, or the value of an object's
    /// entry.
    pub open spec fn child(self, i: int) -> Json {
        match self {
            Json::Array(items) => items[i],
            Json::Object(entries) => entries[i].value,
            _ => Json::Null,
        }
    }
}

impl JsonValue {
    /// The child at index `i`, as a value.
    pub open spec fn child_value(self, i: int) -> JsonValue {
        match self {
            JsonValue::Array(items) => items@[i],
            JsonValue::Object(entries) => entries@[i].value,
            _ => JsonValue::Null,
        }
    }

    /// The model of a value has the value's children, in order.
    pub proof fn lemma_children(self)
        ensures
            self matches JsonValue::Array(items) ==> self@ is Array && self@.length()
                == items@.len(),
            self matches JsonValue::Object(entries) ==> self@ is Object && self@.length()
                == entries@.len(),
            !(self is Array) && !(self is Object) ==> self@.length() == 0,
            forall|i: int|
                0 <= i < self@.length() ==> #[trigger] self@.child(i) == self.child_value(i)@,
            forall|i: int|
                0 <= i < self@.length() && self is Object ==> (#[trigger] self@->Object_0[i]).key
                    == self->Object_0@[i].key@,
    {
    }
}

fn clone_items(items: &Vec<JsonValue>) -> (r: Vec<JsonValue>)
    ensures
        r@.len() == items@.len(),
        forall|i: int| 0 <= i < items@.len() ==> r@[i]@ == items@[i]@,
    decreases items,
{
    let mut r: Vec<JsonValue> = Vec::new();
    let mut k: usize = 0;
    while k < items.len()
        invariant
            k <= items@.len(),
            r@.len() == k,
            forall|i: int| 0 <= i < k ==> r@[i]@ == items@[i]@,
        decreases items@.len() - k,
    {
        r.push(items[k].clone());
        k += 1;
    }
    r
}

fn clone_entries(entries: &Vec<JsonEntry>) -> (r: Vec<JsonEntry>)
    ensures
        r@.len() == entries@.len(),
        forall|i: int|
            0 <= i < entries@.len() ==> r@[i].key@ == entries@[i].key@ && r@[i].value@
                == entries@[i].value@,
    decreases entries,
{
    let mut r: Vec<JsonEntry> = Vec::new();
    let mut k: usize = 0;
    while k < entries.len()
        invariant
            k <= entries@.len(),
            r@.len() == k,
            forall|i: int|
                0 <= i < k ==> r@[i].key@ == entries@[i].key@ && r@[i].value@
                    == entries@[i].value@,
        decreases entries@.len() - k,
    {
        r.push(entries[k].clone());
        k += 1;
    }
    r
}

impl Clone for JsonEntry {
    /// A copy with the same key and a value of the same model.
    fn clone(&self) -> (r: Self)
        ensures
            r.key@ == self.key@,
            r.value@ == self.value@,
        decreases self,
    {
        JsonEntry { key: self.key.clone(), value: self.value.clone() }
    }
}

impl Clone for JsonValue {
    /// A copy with the same model.
    fn clone(&self) -> (r: Self)
        ensures
            r@ == self@,
        decreases self,
    {
        match self {
            JsonValue::Null => JsonValue::Null,
            JsonValue::Bool(b) => JsonValue::Bool(*b),
            JsonValue::Number(text) => JsonValue::Number(text.clone()),
            JsonValue::String(text) => JsonValue::String(text.clone()),
            JsonValue::Array(items) => {
                let r = JsonValue::Array(clone_items(items));
                assert(r@->Array_0 =~= self@->Array_0);
                r
            },
            JsonValue::Object(entries) => {
                let r = JsonValue::Object(clone_entries(entries));
                assert(r@->Object_0 =~= self@->Object_0);
                r
            },
        }
    }
}

/// The compact JSON text of a value: no space between tokens, a string or
/// a key as a JSON string literal, a number by its text.
pub open spec fn json_text(value: Json) -> Seq<char>
    decreases value, 0nat,
{
    match value {
        Json::Null => "null"@,
        Json::Bool(b) => if b {
            "true"@
        } else {
            "false"@
        },
        Json::Number(text) => text,
        Json::String(text) => json_quoted(text),
        Json::Array(items) => "["@ + items_text(items, items.len()) + "]"@,
        Json::Object(entries) => "{"@ + entries_text(entries, entries.len()) + "}"@,
    }
}

/// The compact text of the first `n` items of an array, with a comma between
/// two items.
pub open spec fn items_text(items: Seq<Json>, n: nat) -> Seq<char>
    decreases items, n,
{
    if n == 0 || n > items.len() {
        Seq::empty()
    } else if n == 1 {
        json_text(items[0])
    } else {
        items_text(items, (n - 1) as nat) + ","@ + json_text(items[n - 1])
    }
}

/// The compact text of the first `n` entries of an object, each a key, a
/// colon and a value, with a comma between two entries.
pub open spec fn entries_text(entries: Seq<Member>, n: nat) -> Seq<char>
    decreases entries, n,
{
    if n == 0 || n > entries.len() {
        Seq::empty()
    } else if n == 1 {
        json_quoted(entries[0].key) + ":"@ + json_text(entries[0].value)
    } else {
        entries_text(entries, (n - 1) as nat) + ","@ + json_quoted(entries[n - 1].key) + ":"@
            + json_text(entries[n - 1].value)
    }
}

fn items_to_text(items: &Vec<JsonValue>) -> (r: String)
    ensures
        r@ == items_text(JsonValue::Array(*items)@->Array_0, items@.len()),
    decreases items,
{
    let ghost model = JsonValue::Array(*items)@->Array_0;
    let mut r = String::from_str("");
    proof {
        reveal_strlit("");
        assert(r@ =~= items_text(model, 0));
    }
    let mut k: usize = 0;
    while k < items.len()
        invariant
            k <= items@.len(),
            model == JsonValue::Array(*items)@->Array_0,
            model.len() == items@.len(),
            r@ == items_text(model, k as nat),
        decreases items@.len() - k,
    {
        if k > 0 {
            r.append(",");
        }
        let text = items[k].to_json_text();
        r.append(text.as_str());
        proof {
            assert(model[k as int] == items@[k as int]@);
            assert(r@ =~= items_text(model, (k + 1) as nat));
        }
        k += 1;
    }
    r
}

fn entries_to_text(entries: &Vec<JsonEntry>) -> (r: String)
    ensures
        r@ == entries_text(JsonValue::Object(*entries)@->Object_0, entries@.len()),
    decreases entries,
{
    let ghost model = JsonValue::Object(*entries)@->Object_0;
    let mut r = String::from_str("");
    proof {
        reveal_strlit("");
        assert(r@ =~= entries_text(model, 0));
    }
    let mut k: usize = 0;
    while k < entries.len()
        invariant
            k <= entries@.len(),
            model == JsonValue::Object(*entries)@->Object_0,
            model.len() == entries@.len(),
            r@ == entries_text(model, k as nat),
        decreases entries@.len() - k,
    {
        if k > 0 {
            r.append(",");
        }
        let key = quote_string(entries[k].key.as_str());
        r.append(key.as_str());
        r.append(":");
        let text = entries[k].value.to_json_text();
        r.append(text.as_str());
        proof {
            assert(model[k as int].key == entries@[k as int].key@);
            assert(model[k as int].value == entries@[k as int].value@);
            assert(r@ =~= entries_text(model, (k + 1) as nat));
        }
        k += 1;
    }
    r
}

impl JsonValue {
    /// Writes the value as compact JSON text.
    pub fn to_json_text(&self) -> (r: String)
        ensures
            r@ == json_text(self@),
        decreases self,
    {
        match self {
            JsonValue::Null => String::from_str("null"),
            JsonValue::Bool(b) => if *b {
                String::from_str("true")
            } else {
                String::from_str("false")
            },
            JsonValue::Number(text) => text.clone(),
            JsonValue::String(text) => quote_string(text.as_str()),
            JsonValue::Array(items) => {
                let mut r = String::from_str("[");
                let inner = items_to_text(items);
                r.append(inner.as_str());
                r.append("]");
                r
            },
            JsonValue::Object(entries) => {
                let mut r = String::from_str("{");
                let inner = entries_to_text(entries);
                r.append(inner.as_str());
                r.append("}");
                r
            },
        }
    }
}

} // verus!
