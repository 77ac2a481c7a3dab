//! A generic JSON-like tree — null, boolean, number, string, array, object —
//! with safe path lookups that yield an absent result instead of failing.
//! The inbound task document is modeled with this type; a number carries its
//! decimal text, since the report never reads one.

use vstd::prelude::*;

use crate::strutil::str_eq;

verus! {

/// One node of a JSON-like document.
pub enum JsonValue {
    Null,
    Bool(bool),
    Num(String),
    Str(String),
    Arr(Vec<JsonValue>),
    Obj(Vec<(String, JsonValue)>),
}

/// The value under `key` in an entry list: the first matching entry.
pub open spec fn spec_lookup(entries: Seq<(String, JsonValue)>, key: Seq<char>) -> Option<
    JsonValue,
>
    decreases entries.len(),
{
    if entries.len() == 0 {
        None
    } else if entries[0].0@ == key {
        Some(entries[0].1)
    } else {
        spec_lookup(entries.drop_first(), key)
    }
}

/// The member `key` of `v`, when `v` is an object that has it.
pub open spec fn spec_obj_get(v: JsonValue, key: Seq<char>) -> Option<JsonValue> {
    match v {
        JsonValue::Obj(entries) => spec_lookup(entries@, key),
        _ => None,
    }
}

/// The element `i` of `v`, when `v` is an array long enough.
pub open spec fn spec_arr_get(v: JsonValue, i: int) -> Option<JsonValue> {
    match v {
        JsonValue::Arr(items) => if 0 <= i < items@.len() {
            Some(items@[i])
        } else {
            None
        },
        _ => None,
    }
}

/// The characters of `v`, when `v` is a string.
pub open spec fn spec_as_str(v: JsonValue) -> Option<Seq<char>> {
    match v {
        JsonValue::Str(s) => Some(s@),
        _ => None,
    }
}

/// The boolean of `v`, when `v` is one.
pub open spec fn spec_as_bool(v: JsonValue) -> Option<bool> {
    match v {
        JsonValue::Bool(b) => Some(b),
        _ => None,
    }
}

/// Member lookup one step further down an optional node.
pub open spec fn spec_step(o: Option<JsonValue>, key: Seq<char>) -> Option<JsonValue> {
    match o {
        Some(v) => spec_obj_get(v, key),
        None => None,
    }
}

/// Array indexing one step further down an optional node.
pub open spec fn spec_step_at(o: Option<JsonValue>, i: int) -> Option<JsonValue> {
    match o {
        Some(v) => spec_arr_get(v, i),
        None => None,
    }
}

/// The string under an optional node.
pub open spec fn spec_step_str(o: Option<JsonValue>) -> Option<Seq<char>> {
    match o {
        Some(v) => spec_as_str(v),
        None => None,
    }
}

/// The boolean under an optional node.
pub open spec fn spec_step_bool(o: Option<JsonValue>) -> Option<bool> {
    match o {
        Some(v) => spec_as_bool(v),
        None => None,
    }
}

impl JsonValue {
    /// Looks `key` up in an object node; `None` on any other node.
    pub fn obj_get<'a>(&'a self, key: &str) -> (r: Option<&'a JsonValue>)
        ensures
            match r {
                Some(x) => spec_obj_get(*self, key@) == Some(*x),
                None => spec_obj_get(*self, key@) is None,
            },
    {
        match self {
            JsonValue::Obj(entries) => {
                let ghost all = entries@;
                let len: usize = entries.len();
                let mut i: usize = 0;
                proof {
                    assert(all.skip(0) =~= all);
                }
                while i < len
                    invariant
                        i <= len,
                        len == all.len(),
                        all == entries@,
                        spec_obj_get(*self, key@) == spec_lookup(all, key@),
                        spec_lookup(all, key@) == spec_lookup(all.skip(i as int), key@),
                    decreases len - i,
                {
                    proof {
                        assert(all.skip(i as int)[0] == all[i as int]);
                        assert(all.skip(i as int).drop_first() =~= all.skip(i + 1));
                    }
                    let entry = vstd::std_specs::vec::vec_index(entries, i);
                    if str_eq(entry.0.as_str(), key) {
                        proof {
                            assert(spec_lookup(all.skip(i as int), key@) == Some(
                                all[i as int].1,
                            ));
                            assert(spec_obj_get(*self, key@) == Some(all[i as int].1));
                        }
                        return Some(&entry.1);
                    }
                    i = i + 1;
                }
                proof {
                    assert(all.skip(len as int) =~= Seq::<(String, JsonValue)>::empty());
                }
                None
            },
            _ => None,
        }
    }

    /// Indexes an array node; `None` on any other node or out of range.
    pub fn arr_get<'a>(&'a self, i: usize) -> (r: Option<&'a JsonValue>)
        ensures
            match r {
                Some(x) => spec_arr_get(*self, i as int) == Some(*x),
                None => spec_arr_get(*self, i as int) is None,
            },
    {
        match self {
            JsonValue::Arr(items) => {
                if i < items.len() {
                    Some(vstd::std_specs::vec::vec_index(items, i))
                } else {
                    None
                }
            },
            _ => None,
        }
    }

    /// The string slice of a string node.
    pub fn as_str<'a>(&'a self) -> (r: Option<&'a str>)
        ensures
            match r {
                Some(s) => spec_as_str(*self) == Some(s@),
                None => spec_as_str(*self) is None,
            },
    {
        match self {
            JsonValue::Str(s) => Some(s.as_str()),
            _ => None,
        }
    }

    /// The boolean of a boolean node.
    pub fn as_bool(&self) -> (r: Option<bool>)
        ensures
            r == spec_as_bool(*self),
    {
        match self {
            JsonValue::Bool(b) => Some(*b),
            _ => None,
        }
    }
}

} // verus!
