//! A model of parsed JSON documents as plain data.  The outside parser is
//! consulted once, behind a trusted boundary, to turn text into a
//! [`JsonValue`]; everything that reads the tree afterwards is verified.

use vstd::prelude::*;
use crate::text::str_eq;

verus! {

/// A JSON document as plain data.  Object members appear in the order the
/// parser hands them over (sorted by key); a duplicated key keeps its last
/// value.  A number that is not an unsigned 64-bit integer (negative or
/// fractional) is carried as `NumOther`, since no part of this library
/// reads such numbers.
#[derive(Debug)]
pub enum JsonValue {
    Null,
    Bool(bool),
    Num(u64),
    NumOther,
    Str(String),
    Arr(Vec<JsonValue>),
    Obj(Vec<JsonMember>),
}

/// One key/value member of a JSON object.
#[derive(Debug)]
pub struct JsonMember {
    pub key: String,
    pub value: JsonValue,
}

#[verifier::external_type_specification]
#[verifier::external_body]
pub struct ExSerdeValue(serde_json::Value);

/// The document denoted by a text, if it is well-formed JSON.  The result
/// depends on the text alone.
pub uninterp spec fn json_doc(s: Seq<char>) -> Option<JsonValue>;

/// Relies on `serde_json::from_str::<serde_json::Value>`: whether a text is
/// well-formed JSON, and which document it denotes, depend on the text
/// alone (objects come back sorted by key, the last duplicate wins).
#[verifier::external_body]
pub(crate) fn parse_json_text(s: &str) -> (r: Option<JsonValue>)
    ensures
        r == json_doc(s@),
{
    match serde_json::from_str::<serde_json::Value>(s) {
        Ok(v) => Some(of_serde(v)),
        Err(_) => None,
    }
}

/// Relies on `serde_json::Value` and `serde_json::Number::as_u64`: converts
/// the parsed tree into the library's model, variant for variant.
#[verifier::external_body]
fn of_serde(v: serde_json::Value) -> JsonValue {
    match v {
        serde_json::Value::Null => JsonValue::Null,
        serde_json::Value::Bool(b) => JsonValue::Bool(b),
        serde_json::Value::Number(n) => match n.as_u64() {
            Some(u) => JsonValue::Num(u),
            None => JsonValue::NumOther,
        },
        serde_json::Value::String(s) => JsonValue::Str(s),
        serde_json::Value::Array(a) => JsonValue::Arr(a.into_iter().map(of_serde).collect()),
        serde_json::Value::Object(m) => JsonValue::Obj(
            m.into_iter().map(|(k, val)| JsonMember { key: k, value: of_serde(val) }).collect(),
        ),
    }
}

/// The value under `key` among object members, first match.
pub open spec fn obj_lookup(fields: Seq<JsonMember>, key: Seq<char>) -> Option<JsonValue>
    decreases fields.len(),
{
    if fields.len() == 0 {
        None
    } else if fields[0].key@ == key {
        Some(fields[0].value)
    } else {
        obj_lookup(fields.drop_first(), key)
    }
}

/// The value under `key`, if `v` is an object that has that member.
pub open spec fn spec_get(v: JsonValue, key: Seq<char>) -> Option<JsonValue> {
    match v {
        JsonValue::Obj(fields) => obj_lookup(fields@, key),
        _ => None,
    }
}

impl JsonValue {
    /// Member access on an object; `None` on a missing member or any other
    /// kind of value.
    pub fn get<'a>(&'a self, key: &str) -> (r: Option<&'a JsonValue>)
        ensures
            match r {
                Some(x) => spec_get(*self, key@) == Some(*x),
                None => spec_get(*self, key@) is None,
            },
    {
        match self {
            JsonValue::Obj(fields) => {
                let n = fields.len();
                let mut i: usize = 0;
                proof {
                    assert(fields@.skip(0) =~= fields@);
                }
                while i < n
                    invariant
                        *self == JsonValue::Obj(*fields),
                        n == fields@.len(),
                        i <= n,
                        obj_lookup(fields@, key@) == obj_lookup(fields@.skip(i as int), key@),
                    decreases n - i,
                {
                    let ghost rest = fields@.skip(i as int);
                    proof {
                        assert(rest[0] == fields@[i as int]);
                        assert(rest.drop_first() =~= fields@.skip(i + 1));
                    }
                    if str_eq(fields[i].key.as_str(), key) {
                        proof {
                            assert(rest.len() > 0);
                            assert(rest[0].key@ == key@);
                            assert(obj_lookup(rest, key@) == Some(rest[0].value));
                            assert(spec_get(*self, key@) == obj_lookup(fields@, key@));
                            assert(spec_get(*self, key@) == Some(fields@[i as int].value));
                        }
                        return Some(&fields[i].value);
                    }
                    i += 1;
                }
                None
            },
            _ => None,
        }
    }
}

} // verus!
