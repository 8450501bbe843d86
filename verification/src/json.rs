//! JSON documents as `serde_json` holds them, seen through a mathematical model.
//!
//! The first part of this file is not proved: each of its functions is a
//! thin call into `serde_json`, and its contract restates what that crate's
//! source does in terms of [`Json`]. Everything else, here and in the rest of
//! the library, is verified against these contracts.

use vstd::prelude::*;

verus! {

/// A JSON document, `serde_json::Value`.
#[verifier::external_type_specification]
#[verifier::external_body]
pub struct ExJsonValue(serde_json::Value);

/// Why a text is no JSON, `serde_json::Error`.
#[verifier::external_type_specification]
#[verifier::external_body]
pub struct ExJsonError(serde_json::Error);

/// A JSON number: an integer, or a binary floating-point number given by its
/// bit pattern.
pub ghost enum JsonNumber {
    Int(int),
    Real(u64),
}

/// A JSON document.
pub ghost enum Json {
    Null,
    Bool(bool),
    Number(JsonNumber),
    Str(Seq<char>),
    Array(Seq<Json>),
    Object(Map<Seq<char>, Json>),
}

impl Json {
    /// The member `key` of an object; `None` for a missing key and for
    /// anything that is not an object.
    pub open spec fn field(self, key: Seq<char>) -> Option<Json> {
        match self {
            Json::Object(m) => if m.contains_key(key) {
                Some(m[key])
            } else {
                None
            },
            _ => None,
        }
    }

    /// The text of a string; `None` for anything else.
    pub open spec fn as_str(self) -> Option<Seq<char>> {
        match self {
            Json::Str(s) => Some(s),
            _ => None,
        }
    }

    /// The value of a boolean; `None` for anything else.
    pub open spec fn as_bool(self) -> Option<bool> {
        match self {
            Json::Bool(b) => Some(b),
            _ => None,
        }
    }

    /// The text of the string member `key`, if there is one.
    pub open spec fn str_field(self, key: Seq<char>) -> Option<Seq<char>> {
        match self.field(key) {
            Some(j) => j.as_str(),
            None => None,
        }
    }

    /// The object with no members.
    pub open spec fn empty_object() -> Json {
        Json::Object(Map::empty())
    }

    /// An object with the member `key` set to `value`.
    pub open spec fn with(self, key: Seq<char>, value: Json) -> Json {
        match self {
            Json::Object(m) => Json::Object(m.insert(key, value)),
            _ => self,
        }
    }

    /// An integer.
    pub open spec fn integer(n: int) -> Json {
        Json::Number(JsonNumber::Int(n))
    }

    /// An object with the member `key` set to `value`, if there is a value.
    pub open spec fn with_opt(self, key: Seq<char>, value: Option<Json>) -> Json {
        match value {
            Some(v) => self.with(key, v),
            None => self,
        }
    }

    /// An object with the member `key` set to the text, if there is one.
    pub open spec fn with_opt_str(self, key: Seq<char>, value: Option<Seq<char>>) -> Json {
        match value {
            Some(s) => self.with(key, Json::Str(s)),
            None => self,
        }
    }

    /// An object with the member `key` set to the boolean, if there is one.
    pub open spec fn with_opt_bool(self, key: Seq<char>, value: Option<bool>) -> Json {
        match value {
            Some(b) => self.with(key, Json::Bool(b)),
            None => self,
        }
    }

    /// The array of the given texts.
    pub open spec fn strings(items: Seq<Seq<char>>) -> Json {
        Json::Array(items.map_values(|s: Seq<char>| Json::Str(s)))
    }
}

/// The document that a `serde_json::Value` holds.
pub uninterp spec fn json_of(v: serde_json::Value) -> Json;

/// The document that `serde_json::from_str` reads from a text, `None` where it
/// reports an error.
pub uninterp spec fn json_parse(text: Seq<char>) -> Option<Json>;

/// The compact text that `serde_json` prints for a document.
pub uninterp spec fn json_text(j: Json) -> Seq<char>;

/// The documents of a list of values.
pub open spec fn json_seq(items: Seq<serde_json::Value>) -> Seq<Json> {
    items.map_values(|v: serde_json::Value| json_of(v))
}

/// `serde_json::from_str` at `Value`: the result is a function of the text
/// alone, success or error.
#[verifier::external_body]
pub(crate) fn parse(text: &str) -> (r: Result<serde_json::Value, serde_json::Error>)
    ensures
        match r {
            Ok(v) => json_parse(text@) == Some(json_of(v)),
            Err(_) => json_parse(text@) is None,
        },
{
    serde_json::from_str::<serde_json::Value>(text)
}

/// The message of a `serde_json::Error`, by its `Display`. Nothing is claimed
/// of the text.
#[verifier::external_body]
pub(crate) fn error_text(e: &serde_json::Error) -> (r: String) {
    e.to_string()
}

/// `Value::get` with a string index: the member of an object, `None` for a
/// missing key or a value that is no object.
#[verifier::external_body]
pub(crate) fn get<'a>(v: &'a serde_json::Value, key: &str) -> (r: Option<&'a serde_json::Value>)
    ensures
        match r {
            Some(x) => json_of(*v).field(key@) == Some(json_of(*x)),
            None => json_of(*v).field(key@) is None,
        },
{
    v.get(key)
}

/// `Value::as_str`: the text of a string value, `None` for any other value.
#[verifier::external_body]
pub(crate) fn as_str<'a>(v: &'a serde_json::Value) -> (r: Option<&'a str>)
    ensures
        match r {
            Some(s) => json_of(*v).as_str() == Some(s@),
            None => json_of(*v).as_str() is None,
        },
{
    v.as_str()
}

/// `Value::as_bool`: the value of a boolean, `None` for any other value.
#[verifier::external_body]
pub(crate) fn as_bool(v: &serde_json::Value) -> (r: Option<bool>)
    ensures
        r == json_of(*v).as_bool(),
{
    v.as_bool()
}

/// `Value::as_array`: the elements of an array, `None` for any other value.
#[verifier::external_body]
pub(crate) fn as_array<'a>(v: &'a serde_json::Value) -> (r: Option<&'a Vec<serde_json::Value>>)
    ensures
        match r {
            Some(items) => json_of(*v) == Json::Array(json_seq(items@)),
            None => !(json_of(*v) is Array),
        },
{
    v.as_array()
}

/// `Value::as_object` and `Map::keys`: the keys of an object, each once, in
/// the order in which the map hands them out; `None` for a value that is no
/// object.
#[verifier::external_body]
pub(crate) fn object_keys(v: &serde_json::Value) -> (r: Option<Vec<String>>)
    ensures
        match r {
            Some(keys) => {
                &&& json_of(*v) matches Json::Object(m)
                &&& keys.deep_view().no_duplicates()
                &&& forall|k: Seq<char>| keys.deep_view().contains(k) <==> m.contains_key(k)
            },
            None => !(json_of(*v) is Object),
        },
{
    v.as_object().map(|m| m.keys().cloned().collect())
}

/// `Value::Null`.
#[verifier::external_body]
pub(crate) fn null() -> (r: serde_json::Value)
    ensures
        json_of(r) == Json::Null,
{
    serde_json::Value::Null
}

/// `Value::Bool`.
#[verifier::external_body]
pub(crate) fn boolean(b: bool) -> (r: serde_json::Value)
    ensures
        json_of(r) == Json::Bool(b),
{
    serde_json::Value::Bool(b)
}

/// `Value::from` at `i64`: the integer as a JSON number.
#[verifier::external_body]
pub(crate) fn integer(n: i64) -> (r: serde_json::Value)
    ensures
        json_of(r) == Json::integer(n as int),
{
    serde_json::Value::from(n)
}

/// `Value::String` of a copy of the text.
#[verifier::external_body]
pub(crate) fn string(s: &str) -> (r: serde_json::Value)
    ensures
        json_of(r) == Json::Str(s@),
{
    serde_json::Value::String(s.to_owned())
}

/// `Value::Array` of the given elements.
#[verifier::external_body]
pub(crate) fn array(items: Vec<serde_json::Value>) -> (r: serde_json::Value)
    ensures
        json_of(r) == Json::Array(json_seq(items@)),
{
    serde_json::Value::Array(items)
}

/// `Value::Object` of an empty `Map`.
#[verifier::external_body]
pub(crate) fn empty_object() -> (r: serde_json::Value)
    ensures
        json_of(r) == Json::empty_object(),
{
    serde_json::Value::Object(serde_json::Map::new())
}

/// Assignment through `IndexMut` with a string index on an object: the member
/// is inserted, or replaced where the key was there. (On a value that is
/// neither an object nor null the outside code panics.)
#[verifier::external_body]
pub(crate) fn insert(obj: &mut serde_json::Value, key: &str, value: serde_json::Value)
    requires
        json_of(*old(obj)) is Object,
    ensures
        json_of(*final(obj)) == json_of(*old(obj)).with(key@, json_of(value)),
{
    obj[key] = value;
}

/// `Value::clone`: a value that holds the same document.
#[verifier::external_body]
pub(crate) fn duplicate(v: &serde_json::Value) -> (r: serde_json::Value)
    ensures
        json_of(r) == json_of(*v),
{
    v.clone()
}

/// `Value`'s `Display`: the compact text of the document.
#[verifier::external_body]
pub(crate) fn render(v: &serde_json::Value) -> (r: String)
    ensures
        r@ == json_text(json_of(*v)),
{
    v.to_string()
}

/// The text of the string member `key` of `v`, if `v` is an object that has
/// one.
pub fn get_str<'a>(v: &'a serde_json::Value, key: &str) -> (r: Option<&'a str>)
    ensures
        match r {
            Some(s) => json_of(*v).str_field(key@) == Some(s@),
            None => json_of(*v).str_field(key@) is None,
        },
{
    match get(v, key) {
        Some(member) => as_str(member),
        None => None,
    }
}

/// Whether `v` is an object.
pub fn is_object(v: &serde_json::Value) -> (r: bool)
    ensures
        r == (json_of(*v) is Object),
{
    object_keys(v).is_some()
}

/// Sets the member `key` of an object to a text.
pub(crate) fn set_str(obj: &mut serde_json::Value, key: &str, value: &str)
    requires
        json_of(*old(obj)) is Object,
    ensures
        json_of(*final(obj)) == json_of(*old(obj)).with(key@, Json::Str(value@)),
        json_of(*final(obj)) is Object,
{
    insert(obj, key, string(value));
}

/// Sets the member `key` of an object to a boolean.
pub(crate) fn set_bool(obj: &mut serde_json::Value, key: &str, value: bool)
    requires
        json_of(*old(obj)) is Object,
    ensures
        json_of(*final(obj)) == json_of(*old(obj)).with(key@, Json::Bool(value)),
        json_of(*final(obj)) is Object,
{
    insert(obj, key, boolean(value));
}

/// Sets the member `key` of an object to an integer.
pub(crate) fn set_int(obj: &mut serde_json::Value, key: &str, value: i64)
    requires
        json_of(*old(obj)) is Object,
    ensures
        json_of(*final(obj)) == json_of(*old(obj)).with(key@, Json::integer(value as int)),
        json_of(*final(obj)) is Object,
{
    insert(obj, key, integer(value));
}

/// Sets the member `key` of an object to a text, if there is one.
pub(crate) fn set_opt_str(obj: &mut serde_json::Value, key: &str, value: &Option<String>)
    requires
        json_of(*old(obj)) is Object,
    ensures
        json_of(*final(obj)) == json_of(*old(obj)).with_opt_str(key@, value.deep_view()),
        json_of(*final(obj)) is Object,
{
    match value {
        Some(s) => {
            insert(obj, key, string(s.as_str()));
        },
        None => {},
    }
}

/// Sets the member `key` of an object to a boolean, if there is one.
pub(crate) fn set_opt_bool(obj: &mut serde_json::Value, key: &str, value: Option<bool>)
    requires
        json_of(*old(obj)) is Object,
    ensures
        json_of(*final(obj)) == json_of(*old(obj)).with_opt_bool(key@, value),
        json_of(*final(obj)) is Object,
{
    match value {
        Some(b) => {
            insert(obj, key, boolean(b));
        },
        None => {},
    }
}

/// The array of the given texts.
pub fn string_array(items: &Vec<String>) -> (r: serde_json::Value)
    ensures
        json_of(r) == Json::strings(items.deep_view()),
{
    let mut out: Vec<serde_json::Value> = Vec::new();
    let mut i: usize = 0;
    while i < items.len()
        invariant
            i <= items.len(),
            json_seq(out@) == items.deep_view().take(i as int).map_values(
                |s: Seq<char>| Json::Str(s),
            ),
        decreases items.len() - i,
    {
        let ghost before = json_seq(out@);
        out.push(string(items[i].as_str()));
        proof {
            assert(json_seq(out@) =~= before.push(Json::Str(items@[i as int]@)));
            assert(items.deep_view().take(i + 1) =~= items.deep_view().take(i as int).push(
                items@[i as int]@,
            ));
        }
        i += 1;
    }
    proof {
        assert(items.deep_view().take(items.len() as int) =~= items.deep_view());
    }
    array(out)
}

} // verus!
