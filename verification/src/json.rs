//! JSON values and texts, through `serde_json`.
//!
//! A value of `serde_json` is opaque here. `json_view` names the tree that it
//! holds; the items below say what each call does to that tree.
use serde_json::Value;
use vstd::prelude::*;

verus! {

/// The declared type of JSON values.
#[verifier::external_type_specification]
#[verifier::external_body]
pub struct ExValue(serde_json::Value);

/// The declared type of JSON objects under construction.
#[verifier::external_type_specification]
#[verifier::external_body]
#[verifier::reject_recursive_types(K)]
#[verifier::reject_recursive_types(V)]
pub struct ExMap<K, V>(serde_json::Map<K, V>);

/// A JSON value as mathematical values.
pub enum JsonView {
    Null,
    Bool(bool),
    Integer(int),
    /// A number that is no integer: its JSON text, and the number rounded
    /// towards zero into the 64-bit range.
    Real { text: Seq<char>, truncated: i64 },
    Text(Seq<char>),
    Array(Seq<JsonView>),
    Object(Map<Seq<char>, JsonView>),
}

/// The tree that a `serde_json::Value` holds.
pub uninterp spec fn json_view(v: serde_json::Value) -> JsonView;

/// The members that a `serde_json::Map` holds.
pub uninterp spec fn members(m: serde_json::Map<String, Value>) -> Map<Seq<char>, JsonView>;

/// What `serde_json::from_str` reads from a text.
pub uninterp spec fn json_parse(s: Seq<char>) -> Option<JsonView>;

/// The compact JSON text of a tree, as `serde_json` writes it: with the features
/// that are on here, the members of an object come in the order of their names, and
/// numbers are 64-bit integers or doubles.
pub uninterp spec fn json_text(v: JsonView) -> Seq<char>;

/// A value without parts, and no number but an integer.
pub open spec fn scalar(v: JsonView) -> bool {
    match v {
        JsonView::Null => true,
        JsonView::Bool(_) => true,
        JsonView::Integer(n) => i64::MIN <= n <= u64::MAX,
        JsonView::Text(_) => true,
        _ => false,
    }
}

/// A scalar, or a list or an object of scalars.
pub open spec fn flat(v: JsonView) -> bool {
    match v {
        JsonView::Array(items) => forall|i: int| 0 <= i < items.len() ==> scalar(#[trigger] items[i]),
        JsonView::Object(m) => forall|k: Seq<char>| #[trigger] m.contains_key(k) ==> scalar(m[k]),
        _ => scalar(v),
    }
}

/// An object of flat values.
pub open spec fn plain(v: JsonView) -> bool {
    match v {
        JsonView::Object(m) => forall|k: Seq<char>| #[trigger] m.contains_key(k) ==> flat(m[k]),
        _ => false,
    }
}

/// The members of an empty object.
pub open spec fn no_members() -> Map<Seq<char>, JsonView> {
    Map::empty()
}

/// The member `key` of an object.
pub open spec fn get(v: JsonView, key: Seq<char>) -> Option<JsonView> {
    match v {
        JsonView::Object(m) => if m.contains_key(key) {
            Some(m[key])
        } else {
            None
        },
        _ => None,
    }
}

/// The text of a member that is a string.
pub open spec fn get_text(v: JsonView, key: Seq<char>) -> Option<Seq<char>> {
    match get(v, key) {
        Some(JsonView::Text(t)) => Some(t),
        _ => None,
    }
}

/// The 64-bit unsigned integer that a value is.
pub open spec fn unsigned(v: JsonView) -> Option<u64> {
    match v {
        JsonView::Integer(n) => if 0 <= n <= u64::MAX {
            Some(n as u64)
        } else {
            None
        },
        _ => None,
    }
}

/// The 64-bit signed integer that a value is.
pub open spec fn signed(v: JsonView) -> Option<i64> {
    match v {
        JsonView::Integer(n) => if i64::MIN <= n <= i64::MAX {
            Some(n as i64)
        } else {
            None
        },
        _ => None,
    }
}

/// A member that is a 64-bit unsigned integer.
pub open spec fn get_unsigned(v: JsonView, key: Seq<char>) -> Option<u64> {
    match get(v, key) {
        Some(x) => unsigned(x),
        None => None,
    }
}

/// A member that is a boolean.
pub open spec fn get_bool(v: JsonView, key: Seq<char>) -> Option<bool> {
    match get(v, key) {
        Some(JsonView::Bool(b)) => Some(b),
        _ => None,
    }
}

// ---------------------------------------------------------------- reading

/// `serde_json::from_str`, at the type of values: the value that the text writes,
/// or nothing where the text is no JSON. The result is a function of the text.
#[verifier::external_body]
pub(crate) fn parse(s: &str) -> (r: Option<Value>)
    ensures
        match r {
            Some(v) => json_parse(s@) == Some(json_view(v)),
            None => json_parse(s@) is None,
        },
{
    serde_json::from_str(s).ok()
}

/// `Value::get` with a string: the member of that name, where the value is an
/// object that has it.
#[verifier::external_body]
pub(crate) fn member<'a>(v: &'a Value, key: &str) -> (r: Option<&'a Value>)
    ensures
        match r {
            Some(x) => get(json_view(*v), key@) == Some(json_view(*x)),
            None => get(json_view(*v), key@) is None,
        },
{
    v.get(key)
}

/// `Value::as_str`: the text of a string, and nothing for any other value.
pub assume_specification[ serde_json::Value::as_str ](v: &serde_json::Value) -> (r: Option<&str>)
    ensures
        match json_view(*v) {
            JsonView::Text(t) => r matches Some(s) && s@ == t,
            _ => r is None,
        },
;

/// `Value::as_bool`: the truth value of a boolean, and nothing for any other value.
pub assume_specification[ serde_json::Value::as_bool ](v: &serde_json::Value) -> (r: Option<bool>)
    ensures
        match json_view(*v) {
            JsonView::Bool(b) => r == Some(b),
            _ => r is None,
        },
;

/// `Value::as_u64`: an integer that fits, and nothing for any other value.
pub assume_specification[ serde_json::Value::as_u64 ](v: &serde_json::Value) -> (r: Option<u64>)
    ensures
        r == unsigned(json_view(*v)),
;

/// `Value::as_i64`: an integer that fits, and nothing for any other value.
pub assume_specification[ serde_json::Value::as_i64 ](v: &serde_json::Value) -> (r: Option<i64>)
    ensures
        r == signed(json_view(*v)),
;

/// `Value::is_null`.
pub assume_specification[ serde_json::Value::is_null ](v: &serde_json::Value) -> (r: bool)
    ensures
        r == (json_view(*v) is Null),
;

/// `Value::as_array`: the items of an array, and nothing for any other value.
pub assume_specification[ serde_json::Value::as_array ](v: &serde_json::Value) -> (r: Option<
    &Vec<serde_json::Value>,
>)
    ensures
        match json_view(*v) {
            JsonView::Array(items) => r matches Some(a) && a@.len() == items.len() && forall|i: int|
                0 <= i < items.len() ==> json_view(#[trigger] a@[i]) == items[i],
            _ => r is None,
        },
;

/// `Value::as_f64`, cast to a 64-bit signed integer: any number, rounded towards
/// zero and kept in range. An integer outside the range becomes the bound that it
/// passes; of the other integers only that there is a result is stated.
#[verifier::external_body]
pub(crate) fn truncated(v: &Value) -> (r: Option<i64>)
    ensures
        match json_view(*v) {
            JsonView::Real { text, truncated } => r == Some(truncated),
            JsonView::Integer(n) => r is Some && (n > i64::MAX ==> r == Some(i64::MAX)) && (n
                < i64::MIN ==> r == Some(i64::MIN)),
            _ => r is None,
        },
{
    match v.as_f64() {
        Some(x) => Some(x as i64),
        None => None,
    }
}

/// `Value::as_object` and the walk over the map: every member of an object once,
/// in some order, and nothing for any other value.
#[verifier::external_body]
pub(crate) fn object_members(v: &Value) -> (r: Option<Vec<(String, &Value)>>)
    ensures
        match json_view(*v) {
            JsonView::Object(m) => r matches Some(es) && (forall|i: int|
                #![trigger es@[i]]
                0 <= i < es@.len() ==> m.contains_key(es@[i].0@) && m[es@[i].0@] == json_view(
                    *es@[i].1,
                )) && (forall|i: int, j: int|
                0 <= i < j < es@.len() ==> (#[trigger] es@[i]).0@ != (#[trigger] es@[j]).0@) && (
            forall|k: Seq<char>|
                m.contains_key(k) ==> exists|i: int|
                    0 <= i < es@.len() && (#[trigger] es@[i]).0@ == k),
            _ => r is None,
        },
{
    v.as_object().map(|m| m.iter().map(|(k, x)| (k.clone(), x)).collect())
}

/// `Value::to_string`: the compact text. It is a function of the tree; and where
/// the tree is a plain object, reading the text gives the tree back.
#[verifier::external_body]
pub(crate) fn value_text(v: &Value) -> (r: String)
    ensures
        r@ == json_text(json_view(*v)),
        plain(json_view(*v)) ==> json_parse(r@) == Some(json_view(*v)),
{
    v.to_string()
}

// ---------------------------------------------------------------- writing

/// `Map::new`: an object without members.
#[verifier::external_body]
pub(crate) fn new_object() -> (r: serde_json::Map<String, Value>)
    ensures
        members(r) == no_members(),
{
    serde_json::Map::new()
}

/// `Map::insert`: sets a member, in place of one of that name if there was one.
#[verifier::external_body]
pub(crate) fn put(m: &mut serde_json::Map<String, Value>, key: &str, v: Value)
    ensures
        members(*final(m)) == members(*old(m)).insert(key@, json_view(v)),
{
    m.insert(key.to_string(), v);
}

/// `Value::from` on an object.
#[verifier::external_body]
pub(crate) fn object_value(m: serde_json::Map<String, Value>) -> (r: Value)
    ensures
        json_view(r) == JsonView::Object(members(m)),
{
    Value::from(m)
}

/// `Value::from` on a string.
#[verifier::external_body]
pub(crate) fn text_value(s: &str) -> (r: Value)
    ensures
        json_view(r) == JsonView::Text(s@),
{
    Value::from(s)
}

/// `Value::from` on an unsigned integer.
#[verifier::external_body]
pub(crate) fn unsigned_value(n: u64) -> (r: Value)
    ensures
        json_view(r) == JsonView::Integer(n as int),
{
    Value::from(n)
}

/// `Value::from` on a signed integer.
#[verifier::external_body]
pub(crate) fn signed_value(n: i64) -> (r: Value)
    ensures
        json_view(r) == JsonView::Integer(n as int),
{
    Value::from(n)
}

/// `Value::from` on a boolean.
#[verifier::external_body]
pub(crate) fn bool_value(b: bool) -> (r: Value)
    ensures
        json_view(r) == JsonView::Bool(b),
{
    Value::from(b)
}

/// `Value::from` on a vector of values.
#[verifier::external_body]
pub(crate) fn array_value(items: Vec<Value>) -> (r: Value)
    ensures
        json_view(r) == JsonView::Array(Seq::new(items@.len(), |i: int| json_view(items@[i]))),
{
    Value::from(items)
}

// ---------------------------------------------------------------- readings of members

/// The text of a member that is a string.
pub fn member_text(v: &Value, key: &str) -> (r: Option<String>)
    ensures
        match r {
            Some(t) => get_text(json_view(*v), key@) == Some(t@),
            None => get_text(json_view(*v), key@) is None,
        },
{
    match member(v, key) {
        Some(x) => match x.as_str() {
            Some(s) => Some(s.to_owned()),
            None => None,
        },
        None => None,
    }
}

/// A member that is a 64-bit unsigned integer.
pub fn member_unsigned(v: &Value, key: &str) -> (r: Option<u64>)
    ensures
        r == get_unsigned(json_view(*v), key@),
{
    match member(v, key) {
        Some(x) => x.as_u64(),
        None => None,
    }
}

/// A member that is a boolean.
pub fn member_bool(v: &Value, key: &str) -> (r: Option<bool>)
    ensures
        r == get_bool(json_view(*v), key@),
{
    match member(v, key) {
        Some(x) => x.as_bool(),
        None => None,
    }
}

} // verus!
