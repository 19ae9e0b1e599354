//! Changing the members of an object.

use crate::json::Json;
use crate::json::JsonV;
use crate::text::same;
use crate::value::lookup;
use crate::value::members;
use vstd::prelude::*;

verus! {

broadcast use {vstd::string::group_string_axioms, crate::value::group_json};

/// The members without those under `key`.
pub open spec fn dropped(m: Seq<(Seq<char>, JsonV)>, key: Seq<char>) -> Seq<(Seq<char>, JsonV)>
    decreases m.len(),
{
    if m.len() == 0 {
        m
    } else if m.last().0 == key {
        dropped(m.drop_last(), key)
    } else {
        dropped(m.drop_last(), key).push(m.last())
    }
}

/// An object without `key`; any other value as it is.
pub open spec fn without_key(v: JsonV, key: Seq<char>) -> JsonV {
    match v {
        JsonV::Obj(m) => JsonV::Obj(dropped(m, key)),
        _ => v,
    }
}

/// An object with `key`; any other value as it is.
pub open spec fn with_key(v: JsonV, key: Seq<char>, value: JsonV) -> JsonV {
    match v {
        JsonV::Obj(m) => JsonV::Obj(dropped(m, key).push((key, value))),
        _ => v,
    }
}

/// Whether a field is absent or null.
pub open spec fn unset(v: JsonV, key: Seq<char>) -> bool {
    match v.get(key) {
        None => true,
        Some(x) => x is Null,
    }
}

/// Whether a field is absent or null.
pub fn is_unset(v: &Json, key: &str) -> (r: bool)
    ensures
        r == unset(v@, key@),
{
    match v.get(key) {
        None => true,
        Some(x) => match x {
            Json::Null => true,
            _ => false,
        },
    }
}

/// An object without `key`; any other value as it is.
pub fn drop_member(v: Json, key: &str) -> (r: Json)
    ensures
        r@ == without_key(v@, key@),
{
    match v {
        Json::Obj(m) => {
            let mut out: Vec<(String, Json)> = Vec::new();
            let mut i: usize = 0;
            assert(members(out@) =~= dropped(members(m@).take(0), key@));
            while i < m.len()
                invariant
                    i <= m@.len(),
                    members(out@) == dropped(members(m@).take(i as int), key@),
                decreases m@.len() - i,
            {
                let ghost now = members(m@).take(i as int + 1);
                assert(now.drop_last() =~= members(m@).take(i as int));
                assert(now.last() == (m@[i as int].0@, m@[i as int].1@));
                if !same(m[i].0.as_str(), key) {
                    out.push((m[i].0.clone(), m[i].1.dup()));
                }
                i += 1;
            }
            assert(members(m@).take(i as int) =~= members(m@));
            Json::Obj(out)
        },
        other => other,
    }
}

/// An object with `key`; any other value as it is.
pub fn set_member(v: Json, key: &str, value: Json) -> (r: Json)
    ensures
        r@ == with_key(v@, key@, value@),
{
    match drop_member(v, key) {
        Json::Obj(m) => {
            let mut m: Vec<(String, Json)> = m;
            m.push((key.to_owned(), value));
            Json::Obj(m)
        },
        other => other,
    }
}

/// A member that was set is found.
pub proof fn set_is_found(v: JsonV, key: Seq<char>, value: JsonV)
    requires
        v is Obj,
    ensures
        with_key(v, key, value).get(key) == Some(value),
{
}

proof fn dropped_is_gone(m: Seq<(Seq<char>, JsonV)>, key: Seq<char>, other: Seq<char>)
    ensures
        lookup(dropped(m, key), other) == if other == key {
            None
        } else {
            lookup(m, other)
        },
    decreases m.len(),
{
    if m.len() > 0 {
        let d = dropped(m.drop_last(), key);
        dropped_is_gone(m.drop_last(), key, other);
        if m.last().0 != key {
            assert(d.push(m.last()).drop_last() =~= d);
        }
    }
}

/// Dropping a member drops that one and no other.
pub proof fn dropping_leaves_the_rest(v: JsonV, key: Seq<char>, other: Seq<char>)
    ensures
        without_key(v, key).get(key) is None,
        other != key ==> without_key(v, key).get(other) == v.get(other),
{
    if v is Obj {
        dropped_is_gone(v->Obj_0, key, key);
        dropped_is_gone(v->Obj_0, key, other);
    }
}

/// Setting a member leaves every other.
pub proof fn setting_leaves_the_rest(v: JsonV, key: Seq<char>, value: JsonV, other: Seq<char>)
    requires
        other != key,
    ensures
        with_key(v, key, value).get(other) == v.get(other),
{
    if v is Obj {
        let d = dropped(v->Obj_0, key);
        dropped_is_gone(v->Obj_0, key, other);
        assert(d.push((key, value)).drop_last() =~= d);
    }
}

} // verus!
