//! Key/value tags that annotate execution results.
use vstd::prelude::*;

use crate::error::ParseError;

verus! {

/// A tag key; keys order lexicographically.
#[derive(Clone, Debug, Eq, Hash, PartialEq, PartialOrd, Ord)]
pub struct Key(String);

/// A tag value.
#[derive(Clone, Debug, Eq, Hash, PartialEq)]
pub struct Value(String);

/// A key/value annotation.
#[derive(Clone, Debug)]
pub struct Tag {
    /// Key
    pub key: Key,
    /// Value
    pub value: Value,
}

impl View for Key {
    type V = Seq<char>;

    closed spec fn view(&self) -> Seq<char> {
        self.0@
    }
}

impl View for Value {
    type V = Seq<char>;

    closed spec fn view(&self) -> Seq<char> {
        self.0@
    }
}

impl Key {
    /// Parses a key; every string is currently accepted as it stands.
    pub fn from_str(s: &str) -> (r: Result<Key, ParseError>)
        ensures
            r matches Ok(k) && k@ == s@,
    {
        Ok(Key(s.to_owned()))
    }

    /// The key's text.
    pub fn as_ref(&self) -> (r: &str)
        ensures
            r@ == self@,
    {
        self.0.as_str()
    }

    /// The key's text, as an owned string.
    pub fn to_string(&self) -> (r: String)
        ensures
            r@ == self@,
    {
        self.0.clone()
    }
}

impl Value {
    /// Parses a value; every string is accepted as it stands.
    pub fn from_str(s: &str) -> (r: Result<Value, ParseError>)
        ensures
            r matches Ok(v) && v@ == s@,
    {
        Ok(Value(s.to_owned()))
    }

    /// The value's text.
    pub fn as_ref(&self) -> (r: &str)
        ensures
            r@ == self@,
    {
        self.0.as_str()
    }

    /// The value's text, as an owned string.
    pub fn to_string(&self) -> (r: String)
        ensures
            r@ == self@,
    {
        self.0.clone()
    }
}

} // verus!
