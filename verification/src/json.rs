//! A JSON document as the library reads it.
//!
//! Each node carries its value and its compact JSON text (what
//! `serde_json::Value`'s `Display` prints for it). The text is filled in
//! where the document is parsed; the library reads it wherever a value is
//! shown as JSON.

use vstd::prelude::*;
use crate::text::chars_of;

verus! {

/// A JSON number, told apart as serde_json does.
pub enum JsonNumber {
    /// A non-negative integer.
    PosInt(u64),
    /// A negative integer.
    NegInt(i64),
    /// Any other number; its digits are in the node's text.
    Float,
}

/// One `key: value` member of an object, in document order.
pub struct JsonMember {
    pub key: String,
    pub value: Json,
}

/// The value of a JSON node.
pub enum JsonValue {
    Null,
    Bool(bool),
    Number(JsonNumber),
    Str(String),
    Array(Vec<Json>),
    Object(Vec<JsonMember>),
}

/// A JSON node with its compact text.
pub struct Json {
    pub value: JsonValue,
    pub text: String,
}

/// A borrowed optional node, read as a value.
pub open spec fn deref_opt(r: Option<&Json>) -> Option<Json> {
    match r {
        Some(v) => Some(*v),
        None => None,
    }
}

/// `a.or_else(|| b)`.
pub open spec fn or_else(a: Option<Json>, b: Option<Json>) -> Option<Json> {
    match a {
        Some(v) => Some(v),
        None => b,
    }
}

/// `a.or_else(|| b)` on borrowed nodes.
pub fn or_else_ref<'a>(a: Option<&'a Json>, b: Option<&'a Json>) -> (r: Option<&'a Json>)
    ensures
        deref_opt(r) == or_else(deref_opt(a), deref_opt(b)),
{
    match a {
        Some(v) => Some(v),
        None => b,
    }
}

/// The value of the first member named `key`.
pub open spec fn member_value(members: Seq<JsonMember>, key: Seq<char>) -> Option<Json>
    decreases members.len(),
{
    if members.len() == 0 {
        None
    } else if members[0].key@ == key {
        Some(members[0].value)
    } else {
        member_value(members.drop_first(), key)
    }
}

/// The index of the first member named `key`.
pub open spec fn member_index(members: Seq<JsonMember>, key: Seq<char>) -> Option<int>
    decreases members.len(),
{
    if members.len() == 0 {
        None
    } else if members[0].key@ == key {
        Some(0)
    } else {
        match member_index(members.drop_first(), key) {
            Some(i) => Some(i + 1),
            None => None,
        }
    }
}

/// Equality of two string slices.
pub fn str_eq(a: &str, b: &str) -> (r: bool)
    ensures
        r == (a@ == b@),
{
    let ac = chars_of(a);
    let bc = chars_of(b);
    if ac.len() != bc.len() {
        return false;
    }
    let mut i: usize = 0;
    while i < ac.len()
        invariant
            ac@ == a@,
            bc@ == b@,
            ac@.len() == bc@.len(),
            i <= ac@.len(),
            forall|j: int| 0 <= j < i ==> ac@[j] == bc@[j],
        decreases ac.len() - i,
    {
        if ac[i] != bc[i] {
            return false;
        }
        i = i + 1;
    }
    assert(ac@ =~= bc@);
    true
}

impl Json {
    /// `value.get(key)`: the member named `key` of an object; `None` for any other node.
    pub open spec fn field(self, key: Seq<char>) -> Option<Json> {
        match self.value {
            JsonValue::Object(ms) => member_value(ms@, key),
            _ => None,
        }
    }

    /// `value.as_str()`.
    pub open spec fn str_value(self) -> Option<Seq<char>> {
        match self.value {
            JsonValue::Str(s) => Some(s@),
            _ => None,
        }
    }

    /// `value.as_array()`.
    pub open spec fn array_value(self) -> Option<Seq<Json>> {
        match self.value {
            JsonValue::Array(items) => Some(items@),
            _ => None,
        }
    }

    /// `value.as_object()`, as its members in document order.
    pub open spec fn object_value(self) -> Option<Seq<JsonMember>> {
        match self.value {
            JsonValue::Object(ms) => Some(ms@),
            _ => None,
        }
    }

    /// `value.as_i64()`.
    pub open spec fn i64_value(self) -> Option<i64> {
        match self.value {
            JsonValue::Number(JsonNumber::PosInt(u)) => if u <= i64::MAX {
                Some(u as i64)
            } else {
                None
            },
            JsonValue::Number(JsonNumber::NegInt(i)) => Some(i),
            _ => None,
        }
    }

    /// `value.as_u64()`.
    pub open spec fn u64_value(self) -> Option<u64> {
        match self.value {
            JsonValue::Number(JsonNumber::PosInt(u)) => Some(u),
            _ => None,
        }
    }

    /// `get(key)`.
    pub fn get(&self, key: &str) -> (r: Option<&Json>)
        ensures
            deref_opt(r) == self.field(key@),
    {
        match &self.value {
            JsonValue::Object(ms) => {
                let mut i: usize = 0;
                assert(ms@.skip(0) =~= ms@);
                while i < ms.len()
                    invariant
                        i <= ms@.len(),
                        self.field(key@) == member_value(ms@.skip(i as int), key@),
                    decreases ms.len() - i,
                {
                    assert(ms@.skip(i as int).drop_first() =~= ms@.skip(i + 1));
                    assert(ms@.skip(i as int)[0] == ms@[i as int]);
                    if str_eq(ms[i].key.as_str(), key) {
                        return Some(&ms[i].value);
                    }
                    i = i + 1;
                }
                None
            },
            _ => None,
        }
    }

    /// `as_str()`.
    pub fn as_str(&self) -> (r: Option<&str>)
        ensures
            r matches Some(s) ==> self.str_value() == Some(s@),
            r is None ==> self.str_value() is None,
    {
        match &self.value {
            JsonValue::Str(s) => Some(s.as_str()),
            _ => None,
        }
    }

    /// `as_array()`.
    pub fn as_array(&self) -> (r: Option<&Vec<Json>>)
        ensures
            r matches Some(a) ==> self.array_value() == Some(a@),
            r is None ==> self.array_value() is None,
    {
        match &self.value {
            JsonValue::Array(a) => Some(a),
            _ => None,
        }
    }

    /// `as_object()`.
    pub fn as_object(&self) -> (r: Option<&Vec<JsonMember>>)
        ensures
            r matches Some(m) ==> self.object_value() == Some(m@),
            r is None ==> self.object_value() is None,
    {
        match &self.value {
            JsonValue::Object(m) => Some(m),
            _ => None,
        }
    }

    /// `as_i64()`.
    pub fn as_i64(&self) -> (r: Option<i64>)
        ensures
            r == self.i64_value(),
    {
        match &self.value {
            JsonValue::Number(JsonNumber::PosInt(u)) => if *u <= i64::MAX as u64 {
                Some(*u as i64)
            } else {
                None
            },
            JsonValue::Number(JsonNumber::NegInt(i)) => Some(*i),
            _ => None,
        }
    }

    /// `as_u64()`.
    pub fn as_u64(&self) -> (r: Option<u64>)
        ensures
            r == self.u64_value(),
    {
        match &self.value {
            JsonValue::Number(JsonNumber::PosInt(u)) => Some(*u),
            _ => None,
        }
    }

    /// `is_null()`.
    pub fn is_null(&self) -> (r: bool)
        ensures
            r == (self.value is Null),
    {
        match &self.value {
            JsonValue::Null => true,
            _ => false,
        }
    }

    /// The node's compact JSON text, as `Display` prints it.
    pub fn as_text(&self) -> (r: &str)
        ensures
            r@ == self.text@,
    {
        self.text.as_str()
    }

    /// Consumes an object and hands back the value of its first member named `key`.
    pub fn into_field(self, key: &str) -> (r: Option<Json>)
        ensures
            r == self.field(key@),
    {
        let found = self.get(key).is_some();
        if !found {
            return None;
        }
        match self.value {
            JsonValue::Object(ms) => take_member(ms, key),
            _ => None,
        }
    }
}


impl Json {
    /// `Value::Null`.
    pub fn null() -> (r: Json)
        ensures
            r.value is Null,
            r.text@ == "null"@,
    {
        Json { value: JsonValue::Null, text: "null".to_owned() }
    }

    /// An empty object.
    pub fn empty_object() -> (r: Json)
        ensures
            r.object_value() == Some(Seq::<JsonMember>::empty()),
            r.text@ == "{}"@,
    {
        let ms: Vec<JsonMember> = Vec::new();
        Json { value: JsonValue::Object(ms), text: "{}".to_owned() }
    }
}

/// Consumes a member list and hands back the value of its first member named `key`.
fn take_member(members: Vec<JsonMember>, key: &str) -> (r: Option<Json>)
    ensures
        r == member_value(members@, key@),
{
    let mut ms = members;
    let ghost all = ms@;
    let mut i: usize = 0;
    assert(ms@.skip(0) =~= ms@);
    while i < ms.len()
        invariant
            ms@ == all,
            all == members@,
            i <= ms@.len(),
            member_value(all, key@) == member_value(ms@.skip(i as int), key@),
        decreases ms.len() - i,
    {
        assert(ms@.skip(i as int).drop_first() =~= ms@.skip(i + 1));
        assert(ms@.skip(i as int)[0] == ms@[i as int]);
        if str_eq(ms[i].key.as_str(), key) {
            let m = ms.swap_remove(i);
            return Some(m.value);
        }
        i = i + 1;
    }
    None
}

} // verus!
