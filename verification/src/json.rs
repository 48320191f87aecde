//! The parts of JSON documents that the library reads: the top-level
//! fields of an object, each with a scalar value.

use vstd::prelude::*;
use crate::text::str_eq;

verus! {

/// A JSON value as the library reads it: a string, an integer that fits in
/// `i64`, a boolean, or anything else.
#[derive(Debug, PartialEq, Eq)]
pub enum JsonScalar {
    Str(String),
    Int(i64),
    Bool(bool),
    Other,
}

/// The top-level fields of a JSON object, in document order; a document
/// that is not an object has none.
pub struct JsonFields {
    pub entries: Vec<(String, JsonScalar)>,
}

/// A JSON document: an object, a string, or anything else.
pub enum JsonDoc {
    Object(JsonFields),
    Str(String),
    Other,
}

/// The value of the first field named `key`.
pub open spec fn field(entries: Seq<(String, JsonScalar)>, key: Seq<char>) -> Option<JsonScalar>
    decreases entries.len(),
{
    if entries.len() == 0 {
        None
    } else if entries[0].0@ == key {
        Some(entries[0].1)
    } else {
        field(entries.drop_first(), key)
    }
}

/// The value of the first of `keys` that is present, as
/// `get(k1).or_else(|| get(k2))...` picks it.
pub open spec fn first_field(entries: Seq<(String, JsonScalar)>, keys: Seq<Seq<char>>) -> Option<
    JsonScalar,
>
    decreases keys.len(),
{
    if keys.len() == 0 {
        None
    } else {
        match field(entries, keys[0]) {
            Some(v) => Some(v),
            None => first_field(entries, keys.drop_first()),
        }
    }
}

pub open spec fn key_views(keys: Seq<&str>) -> Seq<Seq<char>> {
    keys.map_values(|k: &str| k@)
}

/// `as_i64` of a value.
pub open spec fn as_int(v: Option<JsonScalar>) -> Option<i64> {
    match v {
        Some(JsonScalar::Int(n)) => Some(n),
        _ => None,
    }
}

/// `as_bool` of a value.
pub open spec fn as_boolean(v: Option<JsonScalar>) -> Option<bool> {
    match v {
        Some(JsonScalar::Bool(b)) => Some(b),
        _ => None,
    }
}

impl JsonScalar {
    /// An equal copy.
    pub fn duplicate(&self) -> (r: Self)
        ensures
            r == *self,
    {
        match self {
            JsonScalar::Str(s) => JsonScalar::Str(s.clone()),
            JsonScalar::Int(n) => JsonScalar::Int(*n),
            JsonScalar::Bool(b) => JsonScalar::Bool(*b),
            JsonScalar::Other => JsonScalar::Other,
        }
    }
}

impl JsonFields {
    /// The value of the first field named `key`.
    pub fn get(&self, key: &str) -> (r: Option<JsonScalar>)
        ensures
            r == field(self.entries@, key@),
    {
        let n = self.entries.len();
        let mut i: usize = 0;
        assert(self.entries@.subrange(0, n as int) =~= self.entries@);
        while i < n
            invariant
                i <= n,
                n == self.entries@.len(),
                field(self.entries@, key@) == field(self.entries@.subrange(i as int, n as int), key@),
            decreases n - i,
        {
            let ghost rest = self.entries@.subrange(i as int, n as int);
            assert(rest.drop_first() =~= self.entries@.subrange(i + 1, n as int));
            if str_eq(self.entries[i].0.as_str(), key) {
                return Some(self.entries[i].1.duplicate());
            }
            i = i + 1;
        }
        None
    }

    /// The value of the first of `keys` that is present.
    pub fn get_first(&self, keys: &[&str]) -> (r: Option<JsonScalar>)
        ensures
            r == first_field(self.entries@, key_views(keys@)),
    {
        let n = keys.len();
        let mut i: usize = 0;
        assert(key_views(keys@).subrange(0, n as int) =~= key_views(keys@));
        while i < n
            invariant
                i <= n,
                n == keys@.len(),
                first_field(self.entries@, key_views(keys@)) == first_field(
                    self.entries@,
                    key_views(keys@).subrange(i as int, n as int),
                ),
            decreases n - i,
        {
            let ghost rest = key_views(keys@).subrange(i as int, n as int);
            assert(rest.drop_first() =~= key_views(keys@).subrange(i + 1, n as int));
            let v = self.get(keys[i]);
            if v.is_some() {
                return v;
            }
            i = i + 1;
        }
        None
    }
}

} // verus!
