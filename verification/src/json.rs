//! A JSON document as plain values: what the marketplace answers and what
//! is sent to it.

use vstd::prelude::*;
use vstd::string::StringExecFns;

verus! {

/// A JSON value. A number that is no 64-bit integer is kept as `Inexact`,
/// without its digits.
#[derive(Debug, PartialEq, Eq)]
pub enum Json {
    Null,
    Bool(bool),
    Int(i64),
    Inexact,
    Text(String),
    Array(Vec<Json>),
    Object(Vec<(String, Json)>),
}

/// The value of the first entry with the key, if there is one.
pub open spec fn first_value(entries: Seq<(String, Json)>, key: Seq<char>) -> Option<Json>
    decreases entries.len(),
{
    if entries.len() == 0 {
        None
    } else if entries[0].0@ == key {
        Some(entries[0].1)
    } else {
        first_value(entries.drop_first(), key)
    }
}

/// A borrowed value as the value itself.
pub open spec fn deref_json(r: Option<&Json>) -> Option<Json> {
    match r {
        Some(j) => Some(*j),
        None => None,
    }
}

impl Json {
    /// The member `key` of an object; none for any other value.
    pub open spec fn member(self, key: Seq<char>) -> Option<Json> {
        match self {
            Json::Object(entries) => first_value(entries@, key),
            _ => None,
        }
    }

    /// The element `i` of an array; none for any other value.
    pub open spec fn item(self, i: int) -> Option<Json> {
        match self {
            Json::Array(items) => if 0 <= i < items@.len() {
                Some(items@[i])
            } else {
                None
            },
            _ => None,
        }
    }

    /// The elements of an array; none for any other value.
    pub open spec fn items(self) -> Option<Seq<Json>> {
        match self {
            Json::Array(items) => Some(items@),
            _ => None,
        }
    }

    /// The value as a 32-bit integer, where it is one.
    pub open spec fn as_i32(self) -> Option<i32> {
        match self {
            Json::Int(n) => if i32::MIN <= n <= i32::MAX {
                Some(n as i32)
            } else {
                None
            },
            _ => None,
        }
    }

    /// The member `key` of an object; none for any other value.
    pub fn get(&self, key: &str) -> (r: Option<&Json>)
        ensures
            deref_json(r) == self.member(key@),
    {
        match self {
            Json::Object(entries) => {
                let wanted = String::from_str(key);
                let mut i: usize = 0;
                assert(entries@.skip(0) =~= entries@);
                while i < entries.len()
                    invariant
                        i <= entries.len(),
                        wanted@ == key@,
                        self.member(key@) == first_value(entries@, key@),
                        first_value(entries@, key@) == first_value(entries@.skip(i as int), key@),
                    decreases entries.len() - i,
                {
                    assert(entries@.skip(i as int).drop_first() =~= entries@.skip(i + 1));
                    assert(entries@.skip(i as int)[0] == entries@[i as int]);
                    if entries[i].0 == wanted {
                        return Some(&entries[i].1);
                    }
                    i = i + 1;
                }
                None
            },
            _ => None,
        }
    }

    /// The element `i` of an array; none for any other value.
    pub fn at(&self, i: usize) -> (r: Option<&Json>)
        ensures
            deref_json(r) == self.item(i as int),
    {
        match self {
            Json::Array(items) => if i < items.len() {
                Some(&items[i])
            } else {
                None
            },
            _ => None,
        }
    }

    /// The value as a 32-bit integer, where it is one.
    pub fn to_i32(&self) -> (r: Option<i32>)
        ensures
            r == self.as_i32(),
    {
        match self {
            Json::Int(n) => if *n >= i32::MIN as i64 && *n <= i32::MAX as i64 {
                Some(*n as i32)
            } else {
                None
            },
            _ => None,
        }
    }
}

} // verus!
