//! A JSON document model holding what the agent reads from configuration
//! files, backend responses and gateway frames, with the lookups it performs
//! on them (`value["key"]`, `as_str`, `as_u64`, `as_i64`, `as_bool`, `as_array`).

use vstd::prelude::*;
use crate::text::str_eq;

verus! {

/// The integer readings of a JSON number: its value as `i64` and as `u64`
/// where it has one (a number with a fraction or an exponent has neither).
#[derive(Clone, Copy, Debug, PartialEq, Eq)]
pub struct JsonNumber {
    pub as_i64: Option<i64>,
    pub as_u64: Option<u64>,
}

/// One member of a JSON object. Within an object the keys are distinct.
#[derive(Debug)]
pub struct JsonMember {
    pub key: String,
    pub value: JsonValue,
}

#[derive(Debug)]
pub enum JsonValue {
    Null,
    Bool(bool),
    Number(JsonNumber),
    Str(String),
    Array(Vec<JsonValue>),
    Object(Vec<JsonMember>),
}

/// The value stored under `key` among `members` (the first such member).
pub open spec fn member_lookup(members: Seq<JsonMember>, key: Seq<char>) -> Option<JsonValue>
    decreases members.len(),
{
    if members.len() == 0 {
        None
    } else if members[0].key@ == key {
        Some(members[0].value)
    } else {
        member_lookup(members.drop_first(), key)
    }
}

/// `Value::get(key)`: the member value of an object, `None` for anything else.
pub open spec fn json_get(v: JsonValue, key: Seq<char>) -> Option<JsonValue> {
    match v {
        JsonValue::Object(m) => member_lookup(m@, key),
        _ => None,
    }
}

/// `value[key]`: like `get`, with `Null` where there is no such member.
pub open spec fn json_index(v: JsonValue, key: Seq<char>) -> JsonValue {
    match json_get(v, key) {
        Some(x) => x,
        None => JsonValue::Null,
    }
}

pub open spec fn json_str(v: JsonValue) -> Option<Seq<char>> {
    match v {
        JsonValue::Str(s) => Some(s@),
        _ => None,
    }
}

pub open spec fn json_u64(v: JsonValue) -> Option<u64> {
    match v {
        JsonValue::Number(n) => n.as_u64,
        _ => None,
    }
}

pub open spec fn json_i64(v: JsonValue) -> Option<i64> {
    match v {
        JsonValue::Number(n) => n.as_i64,
        _ => None,
    }
}

pub open spec fn json_bool(v: JsonValue) -> Option<bool> {
    match v {
        JsonValue::Bool(b) => Some(b),
        _ => None,
    }
}

pub open spec fn json_array(v: JsonValue) -> Option<Seq<JsonValue>> {
    match v {
        JsonValue::Array(a) => Some(a@),
        _ => None,
    }
}

/// `value[key].as_str()`, as owned text.
pub open spec fn str_field(v: JsonValue, key: Seq<char>) -> Option<Seq<char>> {
    json_str(json_index(v, key))
}

pub open spec fn u64_field(v: JsonValue, key: Seq<char>) -> Option<u64> {
    json_u64(json_index(v, key))
}

pub open spec fn i64_field(v: JsonValue, key: Seq<char>) -> Option<i64> {
    json_i64(json_index(v, key))
}

pub open spec fn bool_field(v: JsonValue, key: Seq<char>) -> Option<bool> {
    json_bool(json_index(v, key))
}

pub open spec fn string_opt_view(o: Option<String>) -> Option<Seq<char>> {
    match o {
        Some(s) => Some(s@),
        None => None,
    }
}

impl JsonValue {
    /// `Value::get(key)`.
    pub fn get(&self, key: &str) -> (r: Option<&JsonValue>)
        ensures
            r matches Some(x) ==> json_get(*self, key@) == Some(*x),
            r is None ==> json_get(*self, key@) is None,
    {
        match self {
            JsonValue::Object(members) => {
                let mut i: usize = 0;
                assert(members@.subrange(0, members@.len() as int) =~= members@);
                while i < members.len()
                    invariant
                        i <= members@.len(),
                        json_get(*self, key@) == member_lookup(members@, key@),
                        member_lookup(members@, key@) == member_lookup(
                            members@.subrange(i as int, members@.len() as int),
                            key@,
                        ),
                    decreases members@.len() - i,
                {
                    let ghost rest = members@.subrange(i as int, members@.len() as int);
                    assert(rest[0] == members@[i as int]);
                    if str_eq(members[i].key.as_str(), key) {
                        assert(rest.len() > 0);
                        assert(json_get(*self, key@) == member_lookup(members@, key@));
                        assert(member_lookup(rest, key@) == Some(members@[i as int].value));
                        return Some(&members[i].value);
                    }
                    assert(rest.drop_first() =~= members@.subrange(i + 1, members@.len() as int));
                    i += 1;
                }
                assert(members@.subrange(i as int, members@.len() as int).len() == 0);
                None
            },
            _ => None,
        }
    }

    /// `value[key].as_str()`, cloned.
    pub fn str_field(&self, key: &str) -> (r: Option<String>)
        ensures
            string_opt_view(r) == str_field(*self, key@),
    {
        match self.get(key) {
            Some(JsonValue::Str(s)) => Some(s.clone()),
            _ => None,
        }
    }

    /// `value[key].as_u64()`.
    pub fn u64_field(&self, key: &str) -> (r: Option<u64>)
        ensures
            r == u64_field(*self, key@),
    {
        match self.get(key) {
            Some(JsonValue::Number(n)) => n.as_u64,
            _ => None,
        }
    }

    /// `value[key].as_i64()`.
    pub fn i64_field(&self, key: &str) -> (r: Option<i64>)
        ensures
            r == i64_field(*self, key@),
    {
        match self.get(key) {
            Some(JsonValue::Number(n)) => n.as_i64,
            _ => None,
        }
    }

    /// `value[key].as_bool()`.
    pub fn bool_field(&self, key: &str) -> (r: Option<bool>)
        ensures
            r == bool_field(*self, key@),
    {
        match self.get(key) {
            Some(JsonValue::Bool(b)) => Some(*b),
            _ => None,
        }
    }

}

} // verus!
