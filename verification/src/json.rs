//! JSON documents as plain values, with the reading and writing of JSON text
//! left to `serde_json`.

use crate::text::{chars_of, decimal, same_text, u64_to_text};
use vstd::prelude::*;

verus! {

#[verifier::external_type_specification]
#[verifier::external_body]
pub struct ExSerdeValue(serde_json::Value);

/// One member of a JSON object: a key and the document under it.
#[derive(Debug, PartialEq)]
pub struct JsonMember {
    pub key: String,
    pub value: JsonValue,
}

/// A JSON document: null, a boolean, a number, a string, an array or an object.
///
/// A number is held as its JSON text; one whose text is no JSON number is
/// written as `null`. An object keeps its members in order; where a key
/// occurs twice, the last occurrence is the one that is read.
#[derive(Debug, PartialEq)]
pub enum JsonValue {
    Null,
    Bool(bool),
    Number(String),
    String(String),
    Array(Vec<JsonValue>),
    Object(Vec<JsonMember>),
}

/// The mathematical value of one member of a JSON object.
pub struct Field {
    pub key: Seq<char>,
    pub value: Json,
}

/// The mathematical value of a JSON document.
pub enum Json {
    Null,
    Bool(bool),
    Number(Seq<char>),
    String(Seq<char>),
    Array(Seq<Json>),
    Object(Seq<Field>),
}

impl View for JsonValue {
    type V = Json;

    open spec fn view(&self) -> Json
        decreases self,
    {
        match self {
            JsonValue::Null => Json::Null,
            JsonValue::Bool(b) => Json::Bool(*b),
            JsonValue::Number(n) => Json::Number(n@),
            JsonValue::String(s) => Json::String(s@),
            JsonValue::Array(items) => Json::Array(
                Seq::new(
                    items@.len(),
                    |i: int|
                        if 0 <= i < items@.len() {
                            items@[i].view()
                        } else {
                            Json::Null
                        },
                ),
            ),
            JsonValue::Object(members) => Json::Object(
                Seq::new(
                    members@.len(),
                    |i: int|
                        if 0 <= i < members@.len() {
                            Field { key: members@[i].key@, value: members@[i].value.view() }
                        } else {
                            Field { key: Seq::empty(), value: Json::Null }
                        },
                ),
            ),
        }
    }
}

/// The value of the last member of `members` whose key is `key`.
pub open spec fn lookup(members: Seq<Field>, key: Seq<char>) -> Option<Json>
    decreases members.len(),
{
    if members.len() == 0 {
        None
    } else if members.last().key == key {
        Some(members.last().value)
    } else {
        lookup(members.drop_last(), key)
    }
}

impl Json {
    /// The member `key` of an object; nothing for any other document.
    pub open spec fn member(self, key: Seq<char>) -> Option<Json> {
        match self {
            Json::Object(members) => lookup(members, key),
            _ => None,
        }
    }

    /// The characters of a string; nothing for any other document.
    pub open spec fn text(self) -> Option<Seq<char>> {
        match self {
            Json::String(s) => Some(s),
            _ => None,
        }
    }

    /// The elements of an array; nothing for any other document.
    pub open spec fn items(self) -> Option<Seq<Json>> {
        match self {
            Json::Array(items) => Some(items),
            _ => None,
        }
    }

    /// The characters of the member `key`, where it is a string.
    pub open spec fn text_member(self, key: Seq<char>) -> Option<Seq<char>> {
        match self.member(key) {
            Some(v) => v.text(),
            None => None,
        }
    }
}

/// The values of a sequence of documents, in order.
pub open spec fn array_model(items: Seq<JsonValue>) -> Seq<Json> {
    Seq::new(items.len(), |i: int| items[i]@)
}

/// The keys and values of a sequence of members, in order.
pub open spec fn object_model(members: Seq<JsonMember>) -> Seq<Field> {
    Seq::new(members.len(), |i: int| Field { key: members[i].key@, value: members[i].value@ })
}

/// The value of an array is the array of its elements' values.
pub proof fn lemma_array_view(v: JsonValue)
    requires
        v is Array,
    ensures
        v@ == Json::Array(array_model(v->Array_0@)),
{
    assert(v@->Array_0 =~= array_model(v->Array_0@));
}

/// The value of an object is the sequence of its members' keys and values.
pub proof fn lemma_object_view(v: JsonValue)
    requires
        v is Object,
    ensures
        v@ == Json::Object(object_model(v->Object_0@)),
{
    assert(v@->Object_0 =~= object_model(v->Object_0@));
}

/// What `serde_json::from_str` makes of a text: the document that it reads,
/// or nothing where it reports an error.
pub uninterp spec fn json_parse(text: Seq<char>) -> Option<Json>;

/// The compact JSON text that `serde_json` writes for a document.
pub uninterp spec fn json_text(value: Json) -> Seq<char>;

/// The value of an optional document.
pub open spec fn model_of(v: Option<JsonValue>) -> Option<Json> {
    match v {
        Some(x) => Some(x@),
        None => None,
    }
}

/// The value of an optional borrowed document.
pub open spec fn model_of_ref(v: Option<&JsonValue>) -> Option<Json> {
    match v {
        Some(x) => Some(x@),
        None => None,
    }
}

/// Turns a `serde_json::Value` into a `JsonValue`, variant by variant. A
/// number is kept as the text that `serde_json` prints for it, and the
/// members of an object come in the order in which its map yields them.
#[verifier::external_body]
fn lift(value: serde_json::Value) -> JsonValue {
    match value {
        serde_json::Value::Null => JsonValue::Null,
        serde_json::Value::Bool(b) => JsonValue::Bool(b),
        serde_json::Value::Number(n) => JsonValue::Number(n.to_string()),
        serde_json::Value::String(s) => JsonValue::String(s),
        serde_json::Value::Array(a) => JsonValue::Array(a.into_iter().map(lift).collect()),
        serde_json::Value::Object(m) => JsonValue::Object(
            m.into_iter().map(|(key, v)| JsonMember { key, value: lift(v) }).collect(),
        ),
    }
}

/// Turns a `JsonValue` into a `serde_json::Value`, variant by variant. A
/// number whose text `serde_json` does not read as a number becomes null.
#[verifier::external_body]
fn lower(value: &JsonValue) -> serde_json::Value {
    match value {
        JsonValue::Null => serde_json::Value::Null,
        JsonValue::Bool(b) => serde_json::Value::Bool(*b),
        JsonValue::Number(n) => n.parse().map_or(serde_json::Value::Null, serde_json::Value::Number),
        JsonValue::String(s) => serde_json::Value::String(s.clone()),
        JsonValue::Array(a) => serde_json::Value::Array(a.iter().map(lower).collect()),
        JsonValue::Object(m) => serde_json::Value::Object(
            m.iter().map(|f| (f.key.clone(), lower(&f.value))).collect(),
        ),
    }
}

/// `serde_json::from_str`, read as a `serde_json::Value`. The contract names
/// the outcome `json_parse`: the same text always gives the same document,
/// and an error of `serde_json` gives none.
#[verifier::external_body]
pub(crate) fn parse_document(text: &str) -> (r: Option<JsonValue>)
    ensures
        model_of(r) == json_parse(text@),
{
    serde_json::from_str::<serde_json::Value>(text).ok().map(lift)
}

/// The `Display` of `serde_json::Value`, which writes compact JSON. The
/// contract names the text `json_text`: it depends on the document alone.
#[verifier::external_body]
pub(crate) fn write_document(value: &JsonValue) -> (r: String)
    ensures
        r@ == json_text(value@),
{
    lower(value).to_string()
}

impl JsonMember {
    /// The member that puts `value` under `key`.
    pub fn new(key: &str, value: JsonValue) -> (r: JsonMember)
        ensures
            r.key@ == key@,
            r.value == value,
    {
        JsonMember { key: key.to_owned(), value }
    }
}

impl JsonValue {
    /// A string document with the characters of `s`.
    pub fn string(s: &str) -> (r: JsonValue)
        ensures
            r@ == Json::String(s@),
    {
        JsonValue::String(s.to_owned())
    }

    /// A number document that writes `n`.
    pub fn number(n: u64) -> (r: JsonValue)
        ensures
            r@ == Json::Number(decimal(n as nat)),
    {
        JsonValue::Number(u64_to_text(n))
    }

    /// An array document with the given elements.
    pub fn array(items: Vec<JsonValue>) -> (r: JsonValue)
        ensures
            r@ == Json::Array(array_model(items@)),
    {
        let r = JsonValue::Array(items);
        proof {
            lemma_array_view(r);
        }
        r
    }

    /// An object document with the given members.
    pub fn object(members: Vec<JsonMember>) -> (r: JsonValue)
        ensures
            r@ == Json::Object(object_model(members@)),
    {
        let r = JsonValue::Object(members);
        proof {
            lemma_object_view(r);
        }
        r
    }

    /// The member `key` of an object, as `serde_json::Value::get` gives it
    /// for a string index.
    pub fn get(&self, key: &str) -> (r: Option<&JsonValue>)
        ensures
            model_of_ref(r) == self@.member(key@),
    {
        match self {
            JsonValue::Object(members) => {
                let ghost all = object_model(members@);
                proof {
                    lemma_object_view(*self);
                }
                let mut i: usize = members.len();
                proof {
                    assert(all.subrange(0, all.len() as int) =~= all);
                }
                while i > 0
                    invariant
                        0 <= i <= members.len(),
                        all == object_model(members@),
                        self@.member(key@) == lookup(all.subrange(0, i as int), key@),
                    decreases i,
                {
                    let ghost head = all.subrange(0, i as int);
                    i = i - 1;
                    proof {
                        assert(head.last() == all[i as int]);
                        assert(all[i as int].key == members@[i as int].key@);
                        assert(all[i as int].value == members@[i as int].value@);
                        assert(head.drop_last() =~= all.subrange(0, i as int));
                    }
                    if same_text(members[i].key.as_str(), key) {
                        return Some(&members[i].value);
                    }
                }
                proof {
                    assert(all.subrange(0, 0).len() == 0);
                }
                None
            },
            _ => None,
        }
    }

    /// The characters of a string document.
    pub fn as_str(&self) -> (r: Option<&str>)
        ensures
            chars_of(r) == self@.text(),
    {
        match self {
            JsonValue::String(s) => Some(s.as_str()),
            _ => None,
        }
    }

    /// The elements of an array document.
    pub fn as_array(&self) -> (r: Option<&Vec<JsonValue>>)
        ensures
            r matches Some(items) ==> self@.items() == Some(array_model(items@)),
            r is None ==> self@.items() is None,
    {
        match self {
            JsonValue::Array(items) => {
                proof {
                    lemma_array_view(*self);
                }
                Some(items)
            },
            _ => None,
        }
    }

    /// The string member `key` of an object: `get` followed by `as_str`.
    pub fn get_str(&self, key: &str) -> (r: Option<&str>)
        ensures
            chars_of(r) == self@.text_member(key@),
    {
        match self.get(key) {
            Some(v) => v.as_str(),
            None => None,
        }
    }

    /// A copy of the document.
    pub fn duplicate(&self) -> (r: JsonValue)
        ensures
            r@ == self@,
        decreases self,
    {
        match self {
            JsonValue::Null => JsonValue::Null,
            JsonValue::Bool(b) => JsonValue::Bool(*b),
            JsonValue::Number(n) => JsonValue::Number(n.clone()),
            JsonValue::String(s) => JsonValue::String(s.clone()),
            JsonValue::Array(items) => {
                let mut out: Vec<JsonValue> = Vec::new();
                let mut i: usize = 0;
                while i < items.len()
                    invariant
                        0 <= i <= items.len(),
                        self is Array,
                        self->Array_0 == *items,
                        out@.len() == i,
                        forall|j: int| 0 <= j < i ==> out@[j]@ == items@[j]@,
                    decreases items.len() - i,
                {
                    let item = &items[i];
                    assert(decreases_to!(items => items[i as int]));
                    let copy = item.duplicate();
                    out.push(copy);
                    i = i + 1;
                }
                let r = JsonValue::Array(out);
                proof {
                    lemma_array_view(r);
                    lemma_array_view(*self);
                    assert(array_model(out@) =~= array_model(items@));
                }
                r
            },
            JsonValue::Object(members) => {
                let mut out: Vec<JsonMember> = Vec::new();
                let mut i: usize = 0;
                while i < members.len()
                    invariant
                        0 <= i <= members.len(),
                        self is Object,
                        self->Object_0 == *members,
                        out@.len() == i,
                        forall|j: int|
                            0 <= j < i ==> out@[j].key@ == members@[j].key@ && out@[j].value@
                                == members@[j].value@,
                    decreases members.len() - i,
                {
                    let member = &members[i];
                    assert(decreases_to!(members => members[i as int]));
                    let key = member.key.clone();
                    let value = member.value.duplicate();
                    out.push(JsonMember { key, value });
                    i = i + 1;
                }
                let r = JsonValue::Object(out);
                proof {
                    lemma_object_view(r);
                    lemma_object_view(*self);
                    assert(object_model(out@) =~= object_model(members@));
                }
                r
            },
        }
    }

    /// Reads a JSON text; gives nothing where the text is no JSON.
    pub fn parse(text: &str) -> (r: Option<JsonValue>)
        ensures
            model_of(r) == json_parse(text@),
    {
        parse_document(text)
    }

    /// The compact JSON text of the document.
    pub fn to_text(&self) -> (r: String)
        ensures
            r@ == json_text(self@),
    {
        write_document(self)
    }
}

impl Clone for JsonValue {
    fn clone(&self) -> (r: JsonValue)
        ensures
            r@ == self@,
    {
        self.duplicate()
    }
}

} // verus!
