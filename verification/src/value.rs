//! JSON values and what they say.
//!
//! [`Json`] is the executable value and [`JsonV`] what it says. An object keeps
//! its members in the order they were put in; where a key occurs twice the
//! later member counts, as in a parsed document.

use vstd::prelude::*;

verus! {

/// A JSON value.
///
/// Integers are exact. A number with a fraction or an exponent is carried by
/// its text: nothing here computes with one.
#[derive(Debug, PartialEq, Eq)]
pub enum Json {
    Null,
    Bool(bool),
    Int(i128),
    Float(String),
    Str(String),
    Arr(Vec<Json>),
    Obj(Vec<(String, Json)>),
}

/// What a [`Json`] says.
pub ghost enum JsonV {
    Null,
    Bool(bool),
    Int(int),
    Float(Seq<char>),
    Str(Seq<char>),
    Arr(Seq<JsonV>),
    Obj(Seq<(Seq<char>, JsonV)>),
}

/// The meaning of a value, member by member.
pub open spec fn json_view(j: Json) -> JsonV
    decreases j,
{
    match j {
        Json::Null => JsonV::Null,
        Json::Bool(b) => JsonV::Bool(b),
        Json::Int(n) => JsonV::Int(n as int),
        Json::Float(s) => JsonV::Float(s@),
        Json::Str(s) => JsonV::Str(s@),
        Json::Arr(v) => JsonV::Arr(
            Seq::new(
                v@.len(),
                |i: int| if 0 <= i < v@.len() { json_view(v@[i]) } else { JsonV::Null },
            ),
        ),
        Json::Obj(v) => JsonV::Obj(
            Seq::new(
                v@.len(),
                |i: int|
                    if 0 <= i < v@.len() {
                        (v@[i].0@, json_view(v@[i].1))
                    } else {
                        (Seq::empty(), JsonV::Null)
                    },
            ),
        ),
    }
}

impl View for Json {
    type V = JsonV;

    open spec fn view(&self) -> JsonV {
        json_view(*self)
    }
}

/// The meanings of the elements of an array.
pub open spec fn values(v: Seq<Json>) -> Seq<JsonV> {
    v.map_values(|j: Json| j@)
}

/// The meanings of the members of an object.
pub open spec fn members(v: Seq<(String, Json)>) -> Seq<(Seq<char>, JsonV)> {
    v.map_values(|p: (String, Json)| (p.0@, p.1@))
}

/// The value of `key` among `members`: the last one put there.
pub open spec fn lookup(members: Seq<(Seq<char>, JsonV)>, key: Seq<char>) -> Option<JsonV>
    decreases members.len(),
{
    if members.len() == 0 {
        None
    } else if members.last().0 == key {
        Some(members.last().1)
    } else {
        lookup(members.drop_last(), key)
    }
}

/// Of a list with one more member, the value is that member's or as before.
pub broadcast proof fn lookup_push(
    members: Seq<(Seq<char>, JsonV)>,
    member: (Seq<char>, JsonV),
    key: Seq<char>,
)
    ensures
        #[trigger] lookup(members.push(member), key) == if member.0 == key {
            Some(member.1)
        } else {
            lookup(members, key)
        },
{
    assert(members.push(member).drop_last() =~= members);
}

impl JsonV {
    /// The member `key`; nothing on a value that is no object.
    pub open spec fn get(self, key: Seq<char>) -> Option<JsonV> {
        match self {
            JsonV::Obj(m) => lookup(m, key),
            _ => None,
        }
    }

    /// The member `key` where it is a text.
    pub open spec fn text(self, key: Seq<char>) -> Option<Seq<char>> {
        match self.get(key) {
            Some(JsonV::Str(s)) => Some(s),
            _ => None,
        }
    }

    /// The member `key` where it is an array.
    pub open spec fn list(self, key: Seq<char>) -> Option<Seq<JsonV>> {
        match self.get(key) {
            Some(JsonV::Arr(s)) => Some(s),
            _ => None,
        }
    }

    /// The member `key` where it is a truth value.
    pub open spec fn truth(self, key: Seq<char>) -> Option<bool> {
        match self.get(key) {
            Some(JsonV::Bool(b)) => Some(b),
            _ => None,
        }
    }

    /// The value where it is an integer an `i64` holds.
    pub open spec fn as_int(self) -> Option<int> {
        match self {
            JsonV::Int(n) => if i64::MIN <= n <= i64::MAX {
                Some(n)
            } else {
                None
            },
            _ => None,
        }
    }

    /// The member `key` where it is an integer a `u64` holds.
    pub open spec fn count(self, key: Seq<char>) -> Option<int> {
        match self.get(key) {
            Some(JsonV::Int(n)) => if 0 <= n <= u64::MAX {
                Some(n)
            } else {
                None
            },
            _ => None,
        }
    }

    /// The member `key` where it is an integer an `i64` holds.
    pub open spec fn integer(self, key: Seq<char>) -> Option<int> {
        match self.get(key) {
            Some(v) => v.as_int(),
            None => None,
        }
    }
}

/// An array's meaning is the meanings of its elements.
pub broadcast proof fn arr_view(v: Vec<Json>)
    ensures
        #[trigger] json_view(Json::Arr(v)) == JsonV::Arr(values(v@)),
{
    assert(json_view(Json::Arr(v))->Arr_0 =~= values(v@));
}

/// An object's meaning is the meanings of its members.
pub broadcast proof fn obj_view(v: Vec<(String, Json)>)
    ensures
        #[trigger] json_view(Json::Obj(v)) == JsonV::Obj(members(v@)),
{
    assert(json_view(Json::Obj(v))->Obj_0 =~= members(v@));
}

/// One more element, one more meaning.
pub broadcast proof fn values_push(v: Seq<Json>, j: Json)
    ensures
        #[trigger] values(v.push(j)) == values(v).push(j@),
{
    assert(values(v.push(j)) =~= values(v).push(j@));
}

/// One more member, one more meaning.
pub broadcast proof fn members_push(v: Seq<(String, Json)>, p: (String, Json))
    ensures
        #[trigger] members(v.push(p)) == members(v).push((p.0@, p.1@)),
{
    assert(members(v.push(p)) =~= members(v).push((p.0@, p.1@)));
}

/// Texts as JSON values.
pub open spec fn str_values(v: Seq<Seq<char>>) -> Seq<JsonV> {
    v.map_values(|s: Seq<char>| JsonV::Str(s))
}

/// The text an optional string holds.
pub open spec fn opt_view(s: Option<String>) -> Option<Seq<char>> {
    match s {
        Some(s) => Some(s@),
        None => None,
    }
}

/// An optional text: null where there is none.
pub open spec fn opt_text(s: Option<Seq<char>>) -> JsonV {
    match s {
        Some(s) => JsonV::Str(s),
        None => JsonV::Null,
    }
}

/// What the views of values are made of.
pub broadcast group group_json {
    arr_view,
    obj_view,
    values_push,
    members_push,
}

} // verus!
