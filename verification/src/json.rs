//! Reading and building JSON values.

use crate::text::same;
use crate::value::lookup;
use crate::value::members;
use crate::value::opt_text;
use crate::value::opt_view;
use crate::value::str_values;
use crate::value::values;
pub use crate::value::Json;
pub use crate::value::JsonV;
use vstd::prelude::*;

verus! {

broadcast use crate::value::group_json;

impl Json {
    /// A copy that says the same.
    pub fn dup(&self) -> (r: Json)
        ensures
            r@ == self@,
        decreases self,
    {
        match self {
            Json::Null => Json::Null,
            Json::Bool(b) => Json::Bool(*b),
            Json::Int(n) => Json::Int(*n),
            Json::Float(s) => Json::Float(s.clone()),
            Json::Str(s) => Json::Str(s.clone()),
            Json::Arr(v) => {
                let mut out: Vec<Json> = Vec::new();
                let mut i: usize = 0;
                while i < v.len()
                    invariant
                        i <= v@.len(),
                        *self == Json::Arr(*v),
                        values(out@) =~= values(v@).take(i as int),
                    decreases v@.len() - i,
                {
                    assert(decreases_to!(*self => self->Arr_0));
                    assert(decreases_to!(*v => v@[i as int]));
                    let one = v[i].dup();
                    out.push(one);
                    i += 1;
                }
                assert(values(out@) =~= values(v@));
                Json::Arr(out)
            },
            Json::Obj(v) => {
                let mut out: Vec<(String, Json)> = Vec::new();
                let mut i: usize = 0;
                while i < v.len()
                    invariant
                        i <= v@.len(),
                        *self == Json::Obj(*v),
                        members(out@) =~= members(v@).take(i as int),
                    decreases v@.len() - i,
                {
                    assert(decreases_to!(*self => self->Obj_0));
                    assert(decreases_to!(*v => v@[i as int]));
                    assert(decreases_to!(v@[i as int] => v@[i as int].1));
                    let one = v[i].1.dup();
                    out.push((v[i].0.clone(), one));
                    i += 1;
                }
                assert(members(out@) =~= members(v@));
                Json::Obj(out)
            },
        }
    }

    /// The member `key`; nothing on a value that is no object.
    pub fn get(&self, key: &str) -> (r: Option<&Json>)
        ensures
            r is Some == self@.get(key@) is Some,
            r is Some ==> r->0@ == self@.get(key@)->0,
    {
        match self {
            Json::Obj(v) => {
                let mut i: usize = v.len();
                assert(members(v@).take(i as int) =~= members(v@));
                while i > 0
                    invariant
                        i <= v@.len(),
                        *self == Json::Obj(*v),
                        lookup(members(v@), key@) == lookup(members(v@).take(i as int), key@),
                    decreases i,
                {
                    let ghost m = members(v@).take(i as int);
                    assert(m.drop_last() =~= members(v@).take(i - 1));
                    i -= 1;
                    if same(v[i].0.as_str(), key) {
                        return Some(&v[i].1);
                    }
                }
                None
            },
            _ => None,
        }
    }

    /// The text, where the value is one.
    pub fn as_str(&self) -> (r: Option<&str>)
        ensures
            r is Some == self@ is Str,
            r is Some ==> r->0@ == self@->Str_0,
    {
        match self {
            Json::Str(s) => Some(s.as_str()),
            _ => None,
        }
    }

    /// The truth value, where the value is one.
    pub fn as_bool(&self) -> (r: Option<bool>)
        ensures
            r is Some == self@ is Bool,
            r is Some ==> r->0 == self@->Bool_0,
    {
        match self {
            Json::Bool(b) => Some(*b),
            _ => None,
        }
    }

    /// The integer, where the value is one that an `i64` holds.
    pub fn as_i64(&self) -> (r: Option<i64>)
        ensures
            r is Some == self@.as_int() is Some,
            r is Some ==> r->0 == self@.as_int()->0,
    {
        match self {
            Json::Int(n) => if *n >= -9223372036854775808i128 && *n <= 9223372036854775807i128 {
                Some(*n as i64)
            } else {
                None
            },
            _ => None,
        }
    }

    /// The elements, where the value is an array.
    pub fn as_array(&self) -> (r: Option<&Vec<Json>>)
        ensures
            r is Some == self@ is Arr,
            r is Some ==> values(r->0@) == self@->Arr_0,
    {
        match self {
            Json::Arr(v) => Some(v),
            _ => None,
        }
    }

    /// The members, where the value is an object.
    pub fn as_object(&self) -> (r: Option<&Vec<(String, Json)>>)
        ensures
            r is Some == self@ is Obj,
            r is Some ==> members(r->0@) == self@->Obj_0,
    {
        match self {
            Json::Obj(v) => Some(v),
            _ => None,
        }
    }

    /// The member `key` where it is a text.
    pub fn text(&self, key: &str) -> (r: Option<&str>)
        ensures
            r is Some == self@.text(key@) is Some,
            r is Some ==> r->0@ == self@.text(key@)->0,
    {
        match self.get(key) {
            Some(v) => v.as_str(),
            None => None,
        }
    }

    /// The member `key` where it is a truth value.
    pub fn truth(&self, key: &str) -> (r: Option<bool>)
        ensures
            r == self@.truth(key@),
    {
        match self.get(key) {
            Some(v) => v.as_bool(),
            None => None,
        }
    }

    /// The member `key` where it is an integer that an `i64` holds.
    pub fn integer(&self, key: &str) -> (r: Option<i64>)
        ensures
            r is Some == self@.integer(key@) is Some,
            r is Some ==> r->0 == self@.integer(key@)->0,
    {
        match self.get(key) {
            Some(v) => v.as_i64(),
            None => None,
        }
    }

    /// The member `key` where it is an array.
    pub fn list(&self, key: &str) -> (r: Option<&Vec<Json>>)
        ensures
            r is Some == self@.list(key@) is Some,
            r is Some ==> values(r->0@) == self@.list(key@)->0,
    {
        match self.get(key) {
            Some(v) => v.as_array(),
            None => None,
        }
    }

    /// The member `key` where it is an integer that a `u64` holds.
    pub fn count(&self, key: &str) -> (r: Option<u64>)
        ensures
            r is Some == self@.count(key@) is Some,
            r is Some ==> r->0 == self@.count(key@)->0,
    {
        match self.get(key) {
            Some(v) => match v {
                Json::Int(n) => if *n >= 0 && *n <= 18446744073709551615i128 {
                    Some(*n as u64)
                } else {
                    None
                },
                _ => None,
            },
            None => None,
        }
    }

    /// A text value.
    pub fn string(s: &str) -> (r: Json)
        ensures
            r@ == JsonV::Str(s@),
    {
        Json::Str(s.to_owned())
    }

    /// A text value, or null where there is none.
    pub fn opt_string(s: &Option<String>) -> (r: Json)
        ensures
            r@ == opt_text(opt_view(*s)),
    {
        match s {
            Some(s) => Json::Str(s.clone()),
            None => Json::Null,
        }
    }

    /// An integer value.
    pub fn number(n: i64) -> (r: Json)
        ensures
            r@ == JsonV::Int(n as int),
    {
        Json::Int(n as i128)
    }

    /// An array of texts.
    pub fn strings(v: &Vec<String>) -> (r: Json)
        ensures
            r@ == JsonV::Arr(str_values(crate::text::texts(v@))),
    {
        let mut out: Vec<Json> = Vec::new();
        let mut i: usize = 0;
        while i < v.len()
            invariant
                i <= v@.len(),
                values(out@) =~= str_values(crate::text::texts(v@)).take(i as int),
            decreases v@.len() - i,
        {
            out.push(Json::Str(v[i].clone()));
            i += 1;
        }
        assert(values(out@) =~= str_values(crate::text::texts(v@)));
        Json::Arr(out)
    }
}

/// An object under construction.
pub struct Fields {
    pub members: Vec<(String, Json)>,
}

impl View for Fields {
    type V = Seq<(Seq<char>, JsonV)>;

    open spec fn view(&self) -> Seq<(Seq<char>, JsonV)> {
        members(self.members@)
    }
}

impl Fields {
    /// No members yet.
    pub fn new() -> (r: Fields)
        ensures
            r@ == Seq::<(Seq<char>, JsonV)>::empty(),
    {
        let r = Fields { members: Vec::new() };
        assert(r@ =~= Seq::<(Seq<char>, JsonV)>::empty());
        r
    }

    /// Adds the member `key`.
    pub fn put(&mut self, key: &str, value: Json)
        ensures
            final(self)@ == old(self)@.push((key@, value@)),
    {
        self.members.push((key.to_owned(), value));
        assert(self@ =~= old(self)@.push((key@, value@)));
    }

    /// The finished object.
    pub fn done(self) -> (r: Json)
        ensures
            r@ == JsonV::Obj(self@),
    {
        Json::Obj(self.members)
    }
}

} // verus!
