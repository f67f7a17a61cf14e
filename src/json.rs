//! A parsed JSON document, and typed access to the members of an object.

use vstd::prelude::*;
use vstd::string::StringExecFns;

use crate::utils::{
    de_from_str_to_float, de_from_str_to_int, decimal_text_value, int_text_value, CoercionError,
    Decimal, NumericTarget,
};

verus! {

/// serde_json's parsed tree, opaque here; it is only converted into `Json`.
#[verifier::external_type_specification]
#[verifier::external_body]
pub struct ExValue(serde_json::Value);

/// A JSON value. An object keeps its members in the order the parser gives
/// them (serde_json sorts them by key); numbers keep their text.
#[derive(Debug)]
pub enum Json {
    Null,
    Bool(bool),
    Number(String),
    Str(String),
    Array(Vec<Json>),
    Object(Vec<(String, Json)>),
}

/// The document that serde_json reads from a text, if the text is JSON.
pub uninterp spec fn parsed_json(text: Seq<char>) -> Option<Json>;

/// Relies on serde_json::from_str into serde_json::Value: a JSON text gives
/// one tree, which depends on the text alone; any other text gives an error.
#[verifier::external_body]
pub(crate) fn parse_json(text: &str) -> (r: Option<Json>)
    ensures
        r == parsed_json(text@),
{
    serde_json::from_str::<serde_json::Value>(text).ok().map(json_tree)
}

/// Relies on serde_json::Value's variants: turns each node of serde_json's
/// tree into the node of the same kind, members in the map's order.
#[verifier::external_body]
fn json_tree(v: serde_json::Value) -> Json {
    match v {
        serde_json::Value::Null => Json::Null,
        serde_json::Value::Bool(b) => Json::Bool(b),
        serde_json::Value::Number(n) => Json::Number(n.to_string()),
        serde_json::Value::String(s) => Json::Str(s),
        serde_json::Value::Array(a) => Json::Array(a.into_iter().map(json_tree).collect()),
        serde_json::Value::Object(m) => Json::Object(
            m.into_iter().map(|(k, x)| (k, json_tree(x))).collect(),
        ),
    }
}

/// The value of the first pair of `s` whose text is `key`.
pub open spec fn first_with<V>(s: Seq<(String, V)>, key: Seq<char>) -> Option<V>
    decreases s.len(),
{
    if s.len() == 0 {
        None
    } else if s[0].0@ == key {
        Some(s[0].1)
    } else {
        first_with(s.drop_first(), key)
    }
}

/// A member that is missing, is not of the expected kind, or holds text that
/// is not a number of the expected type.
#[derive(Clone, Debug)]
pub struct DecodeError {
    pub key: String,
    pub cause: Option<CoercionError>,
}

impl DecodeError {
    pub fn message(&self) -> (r: String)
        ensures
            r@ == self.key@,
    {
        self.key.clone()
    }
}

pub open spec fn text_spec(members: Seq<(String, Json)>, key: Seq<char>) -> Option<String> {
    match first_with(members, key) {
        Some(Json::Str(s)) => Some(s),
        _ => None,
    }
}

pub open spec fn int_spec(members: Seq<(String, Json)>, key: Seq<char>) -> Option<i64> {
    match first_with(members, key) {
        Some(Json::Str(s)) => match int_text_value(s@) {
            Some(v) => Some(v as i64),
            None => None,
        },
        _ => None,
    }
}

pub open spec fn decimal_spec(members: Seq<(String, Json)>, key: Seq<char>) -> Option<Decimal> {
    match first_with(members, key) {
        Some(Json::Str(s)) => match decimal_text_value(s@) {
            Some(p) => Some(Decimal { mantissa: p.0 as i64, scale: p.1 as u32 }),
            None => None,
        },
        _ => None,
    }
}

/// What an error reports of an object: the member it names is missing or not
/// a string, or holds the text that failed to become a number.
pub open spec fn member_fails(members: Seq<(String, Json)>, e: DecodeError) -> bool {
    match e.cause {
        None => !(first_with(members, e.key@) matches Some(Json::Str(_))),
        Some(c) => first_with(members, e.key@) matches Some(Json::Str(t)) && t@ == c.text@ && (
        c.target == NumericTarget::Integer ==> int_text_value(t@) is None) && (c.target
            == NumericTarget::Decimal ==> decimal_text_value(t@) is None),
    }
}

/// What an error reports of a value: where it is an object, a failing member;
/// else that it is not an object.
pub open spec fn value_fails(j: Json, e: DecodeError) -> bool {
    match j {
        Json::Object(members) => member_fails(members@, e),
        _ => e.cause is None,
    }
}

/// Index of the first pair of `s` whose text is `key`.
pub fn index_of<V>(s: &Vec<(String, V)>, key: &str) -> (r: Option<usize>)
    ensures
        match r {
            Some(i) => i < s.len() && first_with(s@, key@) == Some(s@[i as int].1),
            None => first_with(s@, key@) is None,
        },
{
    let k = String::from_str(key);
    assert(s@.subrange(0, s.len() as int) =~= s@);
    let mut i: usize = 0;
    while i < s.len()
        invariant
            i <= s.len(),
            k@ == key@,
            first_with(s@, key@) == first_with(s@.subrange(i as int, s.len() as int), key@),
        decreases s.len() - i,
    {
        let ghost rest = s@.subrange(i as int, s.len() as int);
        assert(rest.drop_first() =~= s@.subrange(i + 1, s.len() as int));
        if s[i].0 == k {
            return Some(i);
        }
        i = i + 1;
    }
    None
}

pub fn text_member(members: &Vec<(String, Json)>, key: &str) -> (r: Result<String, DecodeError>)
    ensures
        match r {
            Ok(v) => text_spec(members@, key@) == Some(v),
            Err(e) => text_spec(members@, key@) is None && e.key@ == key@ && member_fails(
                members@,
                e,
            ),
        },
{
    match index_of(members, key) {
        Some(i) => match &members[i].1 {
            Json::Str(s) => Ok(s.clone()),
            _ => Err(DecodeError { key: String::from_str(key), cause: None }),
        },
        None => Err(DecodeError { key: String::from_str(key), cause: None }),
    }
}

pub fn int_member(members: &Vec<(String, Json)>, key: &str) -> (r: Result<i64, DecodeError>)
    ensures
        match r {
            Ok(v) => int_spec(members@, key@) == Some(v),
            Err(e) => int_spec(members@, key@) is None && e.key@ == key@ && member_fails(
                members@,
                e,
            ),
        },
{
    match index_of(members, key) {
        Some(i) => match &members[i].1 {
            Json::Str(s) => match de_from_str_to_int(s.as_str()) {
                Ok(v) => Ok(v),
                Err(c) => Err(DecodeError { key: String::from_str(key), cause: Some(c) }),
            },
            _ => Err(DecodeError { key: String::from_str(key), cause: None }),
        },
        None => Err(DecodeError { key: String::from_str(key), cause: None }),
    }
}

pub fn decimal_member(members: &Vec<(String, Json)>, key: &str) -> (r: Result<
    Decimal,
    DecodeError,
>)
    ensures
        match r {
            Ok(v) => decimal_spec(members@, key@) == Some(v),
            Err(e) => decimal_spec(members@, key@) is None && e.key@ == key@ && member_fails(
                members@,
                e,
            ),
        },
{
    match index_of(members, key) {
        Some(i) => match &members[i].1 {
            Json::Str(s) => match de_from_str_to_float(s.as_str()) {
                Ok(v) => Ok(v),
                Err(c) => Err(DecodeError { key: String::from_str(key), cause: Some(c) }),
            },
            _ => Err(DecodeError { key: String::from_str(key), cause: None }),
        },
        None => Err(DecodeError { key: String::from_str(key), cause: None }),
    }
}

} // verus!
