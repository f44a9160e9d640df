//! A plain JSON tree for the controller's report payloads, and the one
//! trusted call that produces it from raw bytes.
//!
//! The extraction logic that walks the tree lives with the data model and is
//! verified; only the parse from bytes to tree is taken on trust.

use crate::Error;
use vstd::prelude::*;

verus! {

broadcast use vstd::std_specs::vec::group_vec_axioms;

/// One parsed JSON value. Numbers that fit a signed 64-bit integer are kept
/// exactly; any other number (a fraction, or an integer out of range) is
/// only remembered as such, since no report field may hold one.
#[derive(Debug)]
pub enum Json {
    Null,
    Bool(bool),
    Int(i64),
    OtherNumber,
    Str(String),
    Arr(Vec<Json>),
    Obj(Vec<JsonMember>),
}

/// One key/value member of a JSON object, in document order.
#[derive(Debug)]
pub struct JsonMember {
    pub key: String,
    pub val: Json,
}

/// Spec-level model of a [`Json`] tree.
#[verifier::ext_equal]
pub enum JsonV {
    Null,
    Bool(bool),
    Int(int),
    OtherNumber,
    Str(Seq<char>),
    Arr(Seq<JsonV>),
    Obj(Seq<(Seq<char>, JsonV)>),
}

/// The model of one value.
pub open spec fn json_v(j: Json) -> JsonV
    decreases j,
{
    match j {
        Json::Null => JsonV::Null,
        Json::Bool(b) => JsonV::Bool(b),
        Json::Int(n) => JsonV::Int(n as int),
        Json::OtherNumber => JsonV::OtherNumber,
        Json::Str(s) => JsonV::Str(s@),
        Json::Arr(items) => JsonV::Arr(json_arr_v(items@)),
        Json::Obj(members) => JsonV::Obj(json_obj_v(members@)),
    }
}

/// The models of an array's elements, in order.
pub open spec fn json_arr_v(items: Seq<Json>) -> Seq<JsonV>
    decreases items,
{
    if items.len() == 0 {
        Seq::empty()
    } else {
        seq![json_v(items[0])] + json_arr_v(items.skip(1))
    }
}

/// The models of an object's members, in document order.
pub open spec fn json_obj_v(members: Seq<JsonMember>) -> Seq<(Seq<char>, JsonV)>
    decreases members,
{
    if members.len() == 0 {
        Seq::empty()
    } else {
        seq![(members[0].key@, json_v(members[0].val))] + json_obj_v(members.skip(1))
    }
}

impl View for Json {
    type V = JsonV;

    open spec fn view(&self) -> JsonV {
        json_v(*self)
    }
}

/// The lengths and elements of [`json_arr_v`], index by index.
pub proof fn lemma_json_arr_v(items: Seq<Json>)
    ensures
        json_arr_v(items).len() == items.len(),
        forall|i: int| 0 <= i < items.len() ==> json_arr_v(items)[i] == json_v(items[i]),
    decreases items.len(),
{
    if items.len() > 0 {
        lemma_json_arr_v(items.skip(1));
        assert(forall|i: int|
            0 <= i < items.skip(1).len() ==> items.skip(1)[i] == items[i + 1]);
        assert forall|i: int| 0 <= i < items.len() implies json_arr_v(items)[i] == json_v(
            items[i],
        ) by {
            if i > 0 {
                assert(json_arr_v(items)[i] == json_arr_v(items.skip(1))[i - 1]);
            }
        }
    }
}

/// The lengths and members of [`json_obj_v`], index by index.
pub proof fn lemma_json_obj_v(members: Seq<JsonMember>)
    ensures
        json_obj_v(members).len() == members.len(),
        forall|i: int|
            0 <= i < members.len() ==> json_obj_v(members)[i] == (
                members[i].key@,
                json_v(members[i].val),
            ),
    decreases members.len(),
{
    if members.len() > 0 {
        lemma_json_obj_v(members.skip(1));
        assert(forall|i: int|
            0 <= i < members.skip(1).len() ==> members.skip(1)[i] == members[i + 1]);
        assert forall|i: int| 0 <= i < members.len() implies json_obj_v(members)[i] == (
            members[i].key@,
            json_v(members[i].val),
        ) by {
            if i > 0 {
                assert(json_obj_v(members)[i] == json_obj_v(members.skip(1))[i - 1]);
            }
        }
    }
}

/// The value under the first member with the given key.
pub open spec fn spec_json_get(members: Seq<(Seq<char>, JsonV)>, key: Seq<char>) -> Option<JsonV>
    decreases members.len(),
{
    if members.len() == 0 {
        None
    } else if members[0].0 == key {
        Some(members[0].1)
    } else {
        spec_json_get(members.skip(1), key)
    }
}

proof fn lemma_json_get_first(members: Seq<(Seq<char>, JsonV)>, key: Seq<char>, i: int)
    requires
        0 <= i < members.len(),
        members[i].0 == key,
        forall|j: int| 0 <= j < i ==> members[j].0 != key,
    ensures
        spec_json_get(members, key) == Some(members[i].1),
    decreases i,
{
    if i > 0 {
        lemma_json_get_first(members.skip(1), key, i - 1);
    }
}

proof fn lemma_json_get_none(members: Seq<(Seq<char>, JsonV)>, key: Seq<char>)
    requires
        forall|j: int| 0 <= j < members.len() ==> members[j].0 != key,
    ensures
        spec_json_get(members, key) is None,
    decreases members.len(),
{
    if members.len() > 0 {
        lemma_json_get_none(members.skip(1), key);
    }
}

/// Borrows the value of the first member with the given key.
pub fn json_obj_get<'a>(members: &'a Vec<JsonMember>, key: &str) -> (r: Option<&'a Json>)
    ensures
        match r {
            Some(j) => spec_json_get(json_obj_v(members@), key@) == Some(json_v(*j)),
            None => spec_json_get(json_obj_v(members@), key@) is None,
        },
{
    let n = members.len();
    let ghost mv = json_obj_v(members@);
    for i in 0..n
        invariant
            n == members@.len(),
            mv == json_obj_v(members@),
            forall|j: int| 0 <= j < i ==> mv[j].0 != key@,
    {
        proof {
            lemma_json_obj_v(members@);
        }
        if crate::text::str_eq(members[i].key.as_str(), key) {
            proof {
                lemma_json_get_first(mv, key@, i as int);
            }
            return Some(&members[i].val);
        }
    }
    proof {
        lemma_json_obj_v(members@);
        lemma_json_get_none(mv, key@);
    }
    None
}

#[verifier::external_type_specification]
#[verifier::external_body]
pub struct ExValue(serde_json::Value);

/// The JSON tree that a byte sequence parses to, or nothing when the bytes
/// are not a well-formed JSON document. Parsing depends on the bytes alone.
pub uninterp spec fn json_tree_of(bytes: Seq<u8>) -> Option<JsonV>;

/// Converts a parsed document one constructor at a time; numbers go through
/// `serde_json::Number::as_i64`, which answers exactly for integers that fit
/// a signed 64-bit value.
#[verifier::external_body]
fn json_of_value(v: &serde_json::Value) -> Json {
    match v {
        serde_json::Value::Null => Json::Null,
        serde_json::Value::Bool(b) => Json::Bool(*b),
        serde_json::Value::Number(n) => match n.as_i64() {
            Some(i) => Json::Int(i),
            None => Json::OtherNumber,
        },
        serde_json::Value::String(s) => Json::Str(s.clone()),
        serde_json::Value::Array(a) => Json::Arr(a.iter().map(json_of_value).collect()),
        serde_json::Value::Object(m) => Json::Obj(
            m.iter().map(|(k, x)| JsonMember { key: k.clone(), val: json_of_value(x) }).collect(),
        ),
    }
}

/// Relies on `serde_json::from_slice::<Value>`: a well-formed document
/// parses to its tree (objects keyed uniquely, in sorted key order), and
/// anything else is rejected; the outcome is a function of the bytes alone.
#[verifier::external_body]
pub fn parse_json(data: &[u8]) -> (r: Result<Json, Error>)
    ensures
        match r {
            Ok(j) => json_tree_of(data@) == Some(j@),
            Err(e) => e == Error::ParseError && json_tree_of(data@) is None,
        },
{
    match serde_json::from_slice::<serde_json::Value>(data) {
        Ok(v) => Ok(json_of_value(&v)),
        Err(_) => Err(Error::ParseError),
    }
}

} // verus!
