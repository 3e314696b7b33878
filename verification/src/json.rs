//! A JSON document as the library reads it.
//!
//! The API's responses are parsed outside the library; what the logic reads of
//! them is held here as plain values.  Objects keep their members in order; a
//! lookup by key finds the first member with that key.
use vstd::prelude::*;

verus! {

/// A JSON value.
///
/// Numbers are held the way they were written: non-negative integers as
/// `PosInt`, negative integers as `NegInt`, and any other number as the text
/// of its decimal form in `Float`.
#[derive(Debug, PartialEq, Eq)]
pub enum Json {
    Null,
    Bool(bool),
    PosInt(u64),
    NegInt(i64),
    Float(String),
    Str(String),
    Array(Vec<Json>),
    Object(Vec<(String, Json)>),
}

/// The value of the first member of `entries` named `key`.
pub open spec fn member_value(entries: Seq<(String, Json)>, key: Seq<char>) -> Option<Json>
    decreases entries.len(),
{
    if entries.len() == 0 {
        None
    } else if entries[0].0@ == key {
        Some(entries[0].1)
    } else {
        member_value(entries.drop_first(), key)
    }
}

/// The value behind an optional reference.
pub open spec fn own(o: Option<&Json>) -> Option<Json> {
    match o {
        Some(j) => Some(*j),
        None => None,
    }
}

/// The characters behind an optional string slice.
pub open spec fn str_view(o: Option<&str>) -> Option<Seq<char>> {
    match o {
        Some(s) => Some(s@),
        None => None,
    }
}

/// Member `key` of an optional value (`Value::get` along a path).
pub open spec fn at(o: Option<Json>, key: Seq<char>) -> Option<Json> {
    match o {
        Some(j) => j.field(key),
        None => None,
    }
}

/// The string held by an optional value (`as_str`).
pub open spec fn text_of(o: Option<Json>) -> Option<Seq<char>> {
    match o {
        Some(Json::Str(s)) => Some(s@),
        _ => None,
    }
}

/// The elements held by an optional value (`as_array`).
pub open spec fn items_of(o: Option<Json>) -> Option<Seq<Json>> {
    match o {
        Some(Json::Array(v)) => Some(v@),
        _ => None,
    }
}

/// The unsigned integer held by an optional value (`as_u64`).
pub open spec fn u64_of(o: Option<Json>) -> Option<u64> {
    match o {
        Some(Json::PosInt(n)) => Some(n),
        Some(Json::NegInt(n)) => if n >= 0 {
            Some(n as u64)
        } else {
            None
        },
        _ => None,
    }
}

/// The signed integer held by an optional value (`as_i64`).
pub open spec fn i64_of(o: Option<Json>) -> Option<i64> {
    match o {
        Some(Json::PosInt(n)) => if n <= i64::MAX {
            Some(n as i64)
        } else {
            None
        },
        Some(Json::NegInt(n)) => Some(n),
        _ => None,
    }
}

/// The boolean held by an optional value (`as_bool`).
pub open spec fn bool_of(o: Option<Json>) -> Option<bool> {
    match o {
        Some(Json::Bool(b)) => Some(b),
        _ => None,
    }
}

impl Json {
    /// Member `key` of this value, when it is an object that has one.
    pub open spec fn field(self, key: Seq<char>) -> Option<Json> {
        match self {
            Json::Object(m) => member_value(m@, key),
            _ => None,
        }
    }

    /// Member `key` of this value (`Value::get`).
    pub fn get(&self, key: &str) -> (r: Option<&Json>)
        ensures
            own(r) == self.field(key@),
    {
        match self {
            Json::Object(m) => {
                let k = crate::text::owned(key);
                let mut i: usize = 0;
                assert(m@.skip(0) == m@);
                while i < m.len()
                    invariant
                        k@ == key@,
                        self.field(key@) == member_value(m@, key@),
                        i <= m.len(),
                        member_value(m@, key@) == member_value(m@.skip(i as int), key@),
                    decreases m.len() - i,
                {
                    assert(m@.skip(i as int).drop_first() == m@.skip(i + 1));
                    assert(m@.skip(i as int)[0] == m@[i as int]);
                    if m[i].0 == k {
                        return Some(&m[i].1);
                    }
                    i = i + 1;
                }
                None
            },
            _ => None,
        }
    }

    /// The string this value holds (`Value::as_str`).
    pub fn as_str(&self) -> (r: Option<&str>)
        ensures
            str_view(r) == text_of(Some(*self)),
    {
        match self {
            Json::Str(s) => Some(s.as_str()),
            _ => None,
        }
    }

    /// The elements this value holds (`Value::as_array`).
    pub fn as_array(&self) -> (r: Option<&Vec<Json>>)
        ensures
            match r {
                Some(v) => items_of(Some(*self)) == Some(v@),
                None => items_of(Some(*self)) is None,
            },
    {
        match self {
            Json::Array(v) => Some(v),
            _ => None,
        }
    }

    /// The unsigned integer this value holds (`Value::as_u64`).
    pub fn as_u64(&self) -> (r: Option<u64>)
        ensures
            r == u64_of(Some(*self)),
    {
        match self {
            Json::PosInt(n) => Some(*n),
            Json::NegInt(n) => if *n >= 0 {
                Some(*n as u64)
            } else {
                None
            },
            _ => None,
        }
    }

    /// The signed integer this value holds (`Value::as_i64`).
    pub fn as_i64(&self) -> (r: Option<i64>)
        ensures
            r == i64_of(Some(*self)),
    {
        match self {
            Json::PosInt(n) => if *n <= 0x7fff_ffff_ffff_ffffu64 {
                Some(*n as i64)
            } else {
                None
            },
            Json::NegInt(n) => Some(*n),
            _ => None,
        }
    }

    /// The boolean this value holds (`Value::as_bool`).
    pub fn as_bool(&self) -> (r: Option<bool>)
        ensures
            r == bool_of(Some(*self)),
    {
        match self {
            Json::Bool(b) => Some(*b),
            _ => None,
        }
    }
}

/// Member `key` of an optional value.
pub fn get_at<'a>(o: Option<&'a Json>, key: &str) -> (r: Option<&'a Json>)
    ensures
        own(r) == at(own(o), key@),
{
    match o {
        Some(j) => j.get(key),
        None => None,
    }
}

/// The string held by an optional value.
pub fn str_at<'a>(o: Option<&'a Json>) -> (r: Option<&'a str>)
    ensures
        str_view(r) == text_of(own(o)),
{
    match o {
        Some(j) => j.as_str(),
        None => None,
    }
}

} // verus!
