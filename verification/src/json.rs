//! A JSON document held as plain values, with its mathematical model.

use vstd::prelude::*;

use crate::decimal::{decimal, decimal_chars};
use crate::numeric::{parse_u64, parsed_u64};
use crate::text::string_from_chars;

verus! {

/// A JSON value. Numbers are kept in their textual form; object members
/// keep their order.
#[derive(Debug)]
pub enum JsonValue {
    Null,
    Bool(bool),
    Number(String),
    Str(String),
    Array(Vec<JsonValue>),
    Object(Vec<(String, JsonValue)>),
}

/// The model of a JSON value.
pub enum Json {
    Null,
    Bool(bool),
    Number(Seq<char>),
    Str(Seq<char>),
    Array(Seq<Json>),
    Object(Seq<(Seq<char>, Json)>),
}

impl JsonValue {
    pub open spec fn model(&self) -> Json
        decreases self,
    {
        match self {
            JsonValue::Null => Json::Null,
            JsonValue::Bool(b) => Json::Bool(*b),
            JsonValue::Number(n) => Json::Number(n@),
            JsonValue::Str(s) => Json::Str(s@),
            JsonValue::Array(items) => Json::Array(
                Seq::new(
                    items@.len(),
                    |i: int|
                        if 0 <= i < items@.len() {
                            items@[i].model()
                        } else {
                            Json::Null
                        },
                ),
            ),
            JsonValue::Object(members) => Json::Object(
                Seq::new(
                    members@.len(),
                    |i: int|
                        if 0 <= i < members@.len() {
                            (members@[i].0@, members@[i].1.model())
                        } else {
                            (Seq::empty(), Json::Null)
                        },
                ),
            ),
        }
    }
}

impl JsonValue {
    /// A copy of the value, member for member.
    pub fn duplicate(&self) -> (r: JsonValue)
        ensures
            r.model() == self.model(),
        decreases self,
    {
        match self {
            JsonValue::Null => JsonValue::Null,
            JsonValue::Bool(b) => JsonValue::Bool(*b),
            JsonValue::Number(n) => JsonValue::Number(n.clone()),
            JsonValue::Str(t) => JsonValue::Str(t.clone()),
            JsonValue::Array(items) => {
                let mut out: Vec<JsonValue> = Vec::new();
                let mut i: usize = 0;
                while i < items.len()
                    invariant
                        i <= items.len(),
                        out.len() == i,
                        *self == JsonValue::Array(*items),
                        forall|k: int| 0 <= k < i ==> #[trigger] out@[k].model() == items@[k].model(),
                    decreases items.len() - i,
                {
                    assert(decreases_to!(self => items@[i as int])) by {
                        assert(decreases_to!(*self => self->Array_0));
                        assert(decreases_to!(*items => items@));
                        assert(decreases_to!(items@ => items@[i as int]));
                    }
                    out.push(items[i].duplicate());
                    i += 1;
                }
                let r = JsonValue::Array(out);
                assert forall|k: int| 0 <= k < items@.len() implies #[trigger] r.model()->Array_0[k]
                    == self.model()->Array_0[k] by {
                    assert(out@[k].model() == items@[k].model());
                }
                assert(r.model()->Array_0 =~= self.model()->Array_0);
                r
            },
            JsonValue::Object(members) => {
                let mut out: Vec<(String, JsonValue)> = Vec::new();
                let mut i: usize = 0;
                while i < members.len()
                    invariant
                        i <= members.len(),
                        out.len() == i,
                        *self == JsonValue::Object(*members),
                        forall|k: int| 0 <= k < i ==> #[trigger] out@[k].0@ == members@[k].0@,
                        forall|k: int| 0 <= k < i ==> #[trigger] out@[k].1.model() == members@[k].1.model(),
                    decreases members.len() - i,
                {
                    assert(decreases_to!(self => members@[i as int].1)) by {
                        assert(decreases_to!(*self => self->Object_0));
                        assert(decreases_to!(*members => members@));
                        assert(decreases_to!(members@ => members@[i as int]));
                        assert(decreases_to!(members@[i as int] => members@[i as int].1));
                    }
                    let v = members[i].1.duplicate();
                    out.push((members[i].0.clone(), v));
                    i += 1;
                }
                let r = JsonValue::Object(out);
                assert forall|k: int| 0 <= k < members@.len() implies #[trigger] r.model()->Object_0[k]
                    == self.model()->Object_0[k] by {
                    assert(out@[k].0@ == members@[k].0@);
                    assert(out@[k].1.model() == members@[k].1.model());
                }
                assert(r.model()->Object_0 =~= self.model()->Object_0);
                r
            },
        }
    }
}

impl Clone for JsonValue {
    fn clone(&self) -> (r: Self)
        ensures
            r.model() == self.model(),
    {
        self.duplicate()
    }
}

/// Whether two values are equal, member for member and in order.
pub fn json_eq(a: &JsonValue, b: &JsonValue) -> (r: bool)
    ensures
        r == (a.model() == b.model()),
    decreases a,
{
    match (a, b) {
        (JsonValue::Null, JsonValue::Null) => true,
        (JsonValue::Bool(x), JsonValue::Bool(y)) => *x == *y,
        (JsonValue::Number(x), JsonValue::Number(y)) => *x == *y,
        (JsonValue::Str(x), JsonValue::Str(y)) => *x == *y,
        (JsonValue::Array(xs), JsonValue::Array(ys)) => {
            if xs.len() != ys.len() {
                assert(a.model()->Array_0.len() != b.model()->Array_0.len());
                return false;
            }
            let mut i: usize = 0;
            while i < xs.len()
                invariant
                    i <= xs.len() == ys.len(),
                    *a == JsonValue::Array(*xs),
                    *b == JsonValue::Array(*ys),
                    forall|k: int| 0 <= k < i ==> #[trigger] xs@[k].model() == ys@[k].model(),
                decreases xs.len() - i,
            {
                assert(decreases_to!(a => xs@[i as int])) by {
                    assert(decreases_to!(*a => a->Array_0));
                    assert(decreases_to!(*xs => xs@));
                    assert(decreases_to!(xs@ => xs@[i as int]));
                }
                if !json_eq(&xs[i], &ys[i]) {
                    assert(a.model()->Array_0[i as int] != b.model()->Array_0[i as int]);
                    return false;
                }
                i += 1;
            }
            assert forall|k: int| 0 <= k < xs@.len() implies #[trigger] a.model()->Array_0[k]
                == b.model()->Array_0[k] by {
                assert(xs@[k].model() == ys@[k].model());
            }
            assert(a.model()->Array_0 =~= b.model()->Array_0);
            true
        },
        (JsonValue::Object(xs), JsonValue::Object(ys)) => {
            if xs.len() != ys.len() {
                assert(a.model()->Object_0.len() != b.model()->Object_0.len());
                return false;
            }
            let mut i: usize = 0;
            while i < xs.len()
                invariant
                    i <= xs.len() == ys.len(),
                    *a == JsonValue::Object(*xs),
                    *b == JsonValue::Object(*ys),
                    forall|k: int| 0 <= k < i ==> #[trigger] xs@[k].0@ == ys@[k].0@,
                    forall|k: int| 0 <= k < i ==> #[trigger] xs@[k].1.model() == ys@[k].1.model(),
                decreases xs.len() - i,
            {
                if xs[i].0 != ys[i].0 {
                    assert(a.model()->Object_0[i as int].0 != b.model()->Object_0[i as int].0);
                    return false;
                }
                assert(decreases_to!(a => xs@[i as int].1)) by {
                    assert(decreases_to!(*a => a->Object_0));
                    assert(decreases_to!(*xs => xs@));
                    assert(decreases_to!(xs@ => xs@[i as int]));
                    assert(decreases_to!(xs@[i as int] => xs@[i as int].1));
                }
                if !json_eq(&xs[i].1, &ys[i].1) {
                    assert(a.model()->Object_0[i as int].1 != b.model()->Object_0[i as int].1);
                    return false;
                }
                i += 1;
            }
            assert forall|k: int| 0 <= k < xs@.len() implies #[trigger] a.model()->Object_0[k]
                == b.model()->Object_0[k] by {
                assert(xs@[k].0@ == ys@[k].0@);
                assert(xs@[k].1.model() == ys@[k].1.model());
            }
            assert(a.model()->Object_0 =~= b.model()->Object_0);
            true
        },
        _ => {
            assert(a.model() != b.model()) by {
                match (a, b) {
                    (JsonValue::Null, _) => {},
                    (JsonValue::Bool(_), _) => {},
                    (JsonValue::Number(_), _) => {},
                    (JsonValue::Str(_), _) => {},
                    (JsonValue::Array(_), _) => {},
                    (JsonValue::Object(_), _) => {},
                }
            }
            false
        },
    }
}

/// The value of the first member named `key` among `members`.
pub open spec fn member_from(members: Seq<(Seq<char>, Json)>, key: Seq<char>, i: int) -> Option<Json>
    decreases members.len() - i,
{
    if i < 0 || i >= members.len() {
        None
    } else if members[i].0 == key {
        Some(members[i].1)
    } else {
        member_from(members, key, i + 1)
    }
}

/// The value of member `key` of an object (none for other values).
pub open spec fn member(j: Json, key: Seq<char>) -> Option<Json> {
    match j {
        Json::Object(members) => member_from(members, key, 0),
        _ => None,
    }
}

/// The text of a string value.
pub open spec fn text_of(j: Option<Json>) -> Option<Seq<char>> {
    match j {
        Some(Json::Str(s)) => Some(s),
        _ => None,
    }
}

impl JsonValue {
    /// The member named `key`, when `self` is an object that has one.
    pub fn get(&self, key: &str) -> (r: Option<&JsonValue>)
        ensures
            match r {
                Some(v) => member(self.model(), key@) == Some(v.model()),
                None => member(self.model(), key@) is None,
            },
    {
        match self {
            JsonValue::Object(members) => {
                let ghost ms = self.model()->Object_0;
                let mut i: usize = 0;
                while i < members.len()
                    invariant
                        i <= members@.len(),
                        *self == JsonValue::Object(*members),
                        ms == self.model()->Object_0,
                        ms.len() == members@.len(),
                        forall|k: int| 0 <= k < members@.len() ==> #[trigger] ms[k] == (members@[k].0@, members@[k].1.model()),
                        member_from(ms, key@, 0) == member_from(ms, key@, i as int),
                    decreases members.len() - i,
                {
                    if crate::text::str_eq(members[i].0.as_str(), key) {
                        assert(ms[i as int] == (members@[i as int].0@, members@[i as int].1.model()));
                        return Some(&members[i].1);
                    }
                    assert(ms[i as int] == (members@[i as int].0@, members@[i as int].1.model()));
                    i += 1;
                }
                None
            },
            _ => None,
        }
    }

    /// The text of a string value.
    pub fn as_str(&self) -> (r: Option<&str>)
        ensures
            match r {
                Some(t) => self.model() == Json::Str(t@),
                None => !(self.model() is Str),
            },
    {
        match self {
            JsonValue::Str(t) => Some(t.as_str()),
            _ => None,
        }
    }

    /// The items of an array value.
    pub fn as_array(&self) -> (r: Option<&Vec<JsonValue>>)
        ensures
            match r {
                Some(items) => self.model() is Array && self.model()->Array_0.len() == items@.len()
                    && forall|k: int| 0 <= k < items@.len() ==> (#[trigger] items@[k]).model() == self.model()->Array_0[k],
                None => !(self.model() is Array),
            },
    {
        match self {
            JsonValue::Array(items) => Some(items),
            _ => None,
        }
    }
}

/// The number a JSON number's text denotes when it is an unsigned integer
/// that fits in 64 bits (no sign, no fraction, no exponent).
pub open spec fn number_u64(t: Seq<char>) -> Option<u64> {
    if t.len() > 0 && t[0] != '+' {
        parsed_u64(t)
    } else {
        None
    }
}

impl JsonValue {
    /// The value of an unsigned integer number that fits in 64 bits.
    pub fn as_u64(&self) -> (r: Option<u64>)
        ensures
            r == (match self.model() {
                Json::Number(t) => number_u64(t),
                _ => None,
            }),
    {
        match self {
            JsonValue::Number(t) => {
                let cs = crate::text::chars_of(t.as_str());
                if cs.len() > 0 && cs[0] != '+' {
                    parse_u64(t.as_str())
                } else {
                    None
                }
            },
            _ => None,
        }
    }
}

/// The JSON number `n`, in decimal.
pub fn number_from_u64(n: u64) -> (r: JsonValue)
    ensures
        r.model() == Json::Number(decimal(n as nat)),
{
    JsonValue::Number(string_from_chars(&decimal_chars(n)))
}

/// The object with the given members, in order.
pub fn object(members: Vec<(String, JsonValue)>) -> (r: JsonValue)
    ensures
        r.model() == Json::Object(members@.map_values(|m: (String, JsonValue)| (m.0@, m.1.model()))),
{
    let r = JsonValue::Object(members);
    assert(r.model()->Object_0 =~= members@.map_values(|m: (String, JsonValue)| (m.0@, m.1.model())));
    r
}

} // verus!
