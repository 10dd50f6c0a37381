//! The engine's model of JSON document trees: the value type that matching,
//! generation and synthesis logic reads and produces, with a mathematical
//! view for contracts.

use vstd::prelude::*;
use crate::strings::str_eq;

verus! {

/// A JSON number: unsigned, signed (negative), or the textual form of a
/// non-integral decimal, kept as text so the model stays exact.
#[derive(Debug)]
pub enum JsonNum {
    U(u64),
    I(i64),
    Dec(String),
}

/// Spec-level mirror of `JsonNum`.
pub enum NumData {
    U(u64),
    I(i64),
    Dec(Seq<char>),
}

impl View for JsonNum {
    type V = NumData;

    open spec fn view(&self) -> NumData {
        match self {
            JsonNum::U(u) => NumData::U(*u),
            JsonNum::I(i) => NumData::I(*i),
            JsonNum::Dec(s) => NumData::Dec(s@),
        }
    }
}

/// A JSON value tree. Object entries keep their order; well-formed objects
/// have pairwise distinct keys.
#[derive(Debug)]
pub enum JsonValue {
    Null,
    Bool(bool),
    Num(JsonNum),
    Str(String),
    Arr(Vec<JsonValue>),
    Obj(Vec<(String, JsonValue)>),
}

/// Spec-level mirror of `JsonValue`.
pub enum JsonData {
    Null,
    Bool(bool),
    Num(NumData),
    Str(Seq<char>),
    Arr(Seq<JsonData>),
    Obj(Seq<(Seq<char>, JsonData)>),
}

/// The mathematical value of a JSON tree.
pub open spec fn jdata_of(v: JsonValue) -> JsonData
    decreases v,
{
    match v {
        JsonValue::Null => JsonData::Null,
        JsonValue::Bool(b) => JsonData::Bool(b),
        JsonValue::Num(n) => JsonData::Num(n@),
        JsonValue::Str(s) => JsonData::Str(s@),
        JsonValue::Arr(a) => JsonData::Arr(
            Seq::new(
                a@.len(),
                |i: int|
                    if 0 <= i < a@.len() {
                        jdata_of(a@[i])
                    } else {
                        JsonData::Null
                    },
            ),
        ),
        JsonValue::Obj(m) => JsonData::Obj(
            Seq::new(
                m@.len(),
                |i: int|
                    if 0 <= i < m@.len() {
                        (m@[i].0@, jdata_of(m@[i].1))
                    } else {
                        (Seq::<char>::empty(), JsonData::Null)
                    },
            ),
        ),
    }
}

impl View for JsonValue {
    type V = JsonData;

    open spec fn view(&self) -> JsonData {
        jdata_of(*self)
    }
}

/// The model entries of a sequence of key-value pairs.
pub open spec fn obj_entries_data(m: Seq<(String, JsonValue)>) -> Seq<(Seq<char>, JsonData)> {
    Seq::new(
        m.len(),
        |i: int|
            if 0 <= i < m.len() {
                (m[i].0@, jdata_of(m[i].1))
            } else {
                (Seq::<char>::empty(), JsonData::Null)
            },
    )
}

/// A deep copy of object entries.
pub fn clone_entries(m: &Vec<(String, JsonValue)>) -> (r: Vec<(String, JsonValue)>)
    ensures
        obj_entries_data(r@) =~= obj_entries_data(m@),
{
    let mut out: Vec<(String, JsonValue)> = Vec::new();
    let mut i: usize = 0;
    while i < m.len()
        invariant
            i <= m@.len(),
            out@.len() == i,
            forall|j: int|
                0 <= j < i ==> out@[j].0@ == m@[j].0@ && jdata_of(out@[j].1) == jdata_of(m@[j].1),
        decreases m@.len() - i,
    {
        let entry = &m[i];
        out.push((entry.0.clone(), entry.1.clone()));
        i = i + 1;
    }
    out
}

/// The model elements of a sequence of JSON values.
pub open spec fn arr_elems_data(v: Seq<JsonValue>) -> Seq<JsonData> {
    Seq::new(
        v.len(),
        |i: int|
            if 0 <= i < v.len() {
                jdata_of(v[i])
            } else {
                JsonData::Null
            },
    )
}

/// First binding of `key` among object entries, scanning from position `i`.
pub open spec fn obj_get_from(
    es: Seq<(Seq<char>, JsonData)>,
    key: Seq<char>,
    i: int,
) -> Option<JsonData>
    decreases es.len() - i,
{
    if i < 0 || i >= es.len() {
        None
    } else if es[i].0 == key {
        Some(es[i].1)
    } else {
        obj_get_from(es, key, i + 1)
    }
}

/// First binding of `key` among object entries.
pub open spec fn obj_get_data(es: Seq<(Seq<char>, JsonData)>, key: Seq<char>) -> Option<
    JsonData,
> {
    obj_get_from(es, key, 0)
}

/// The index of the first binding of `key`, scanning from `i`; -1 when
/// absent.
pub open spec fn key_idx_from(es: Seq<(Seq<char>, JsonData)>, key: Seq<char>, i: int) -> int
    decreases es.len() - i,
{
    if i < 0 || i >= es.len() {
        -1
    } else if es[i].0 == key {
        i
    } else {
        key_idx_from(es, key, i + 1)
    }
}

/// The index of the first binding of `key`; -1 when absent.
pub open spec fn key_idx(es: Seq<(Seq<char>, JsonData)>, key: Seq<char>) -> int {
    key_idx_from(es, key, 0)
}

/// The first binding is the entry at the first binding's index.
pub proof fn lemma_get_is_idx(es: Seq<(Seq<char>, JsonData)>, key: Seq<char>, i: int)
    requires
        0 <= i <= es.len(),
    ensures
        key_idx_from(es, key, i) >= 0 ==> i <= key_idx_from(es, key, i) < es.len() && es[
            key_idx_from(es, key, i)].0 == key && obj_get_from(es, key, i) == Some(
            es[key_idx_from(es, key, i)].1,
        ),
        key_idx_from(es, key, i) < 0 ==> obj_get_from(es, key, i) is None,
    decreases es.len() - i,
{
    if i < es.len() && !(es[i].0 == key) {
        lemma_get_is_idx(es, key, i + 1);
    }
}

/// Field of an object value by key; `None` for anything else.
pub open spec fn jdata_get(d: JsonData, key: Seq<char>) -> Option<JsonData> {
    match d {
        JsonData::Obj(es) => obj_get_data(es, key),
        _ => None,
    }
}

impl JsonValue {
    /// Looks `key` up among an object's entries; `None` for non-objects.
    pub fn get<'a>(&'a self, key: &str) -> (r: Option<&'a JsonValue>)
        ensures
            match r {
                Some(v) => jdata_get(self@, key@) == Some(v@) && decreases_to!(*self => *v),
                None => jdata_get(self@, key@) is None,
            },
    {
        match self {
            JsonValue::Obj(m) => {
                let ghost es = self@->Obj_0;
                let mut i: usize = 0;
                while i < m.len()
                    invariant
                        *self == JsonValue::Obj(*m),
                        es == self@->Obj_0,
                        self@ is Obj,
                        es.len() == m@.len(),
                        forall|j: int|
                            0 <= j < m@.len() ==> es[j] == (m@[j].0@, jdata_of(m@[j].1)),
                        i <= m@.len(),
                        obj_get_from(es, key@, 0) == obj_get_from(es, key@, i as int),
                    decreases m@.len() - i,
                {
                    if str_eq(m[i].0.as_str(), key) {
                        proof {
                            lemma_obj_elem_smaller(*self, i as int);
                        }
                        return Some(&m[i].1);
                    }
                    i = i + 1;
                }
                None
            },
            _ => None,
        }
    }

    /// The characters of a string value; `None` for anything else.
    pub fn as_str<'a>(&'a self) -> (r: Option<&'a str>)
        ensures
            match r {
                Some(s) => self@ == JsonData::Str(s@),
                None => !(self@ is Str),
            },
    {
        match self {
            JsonValue::Str(s) => Some(s.as_str()),
            _ => None,
        }
    }
}

/// An array element is structurally smaller than the array value itself.
pub proof fn lemma_arr_elem_smaller(v: JsonValue, i: int)
    requires
        v is Arr,
        0 <= i < (v->Arr_0)@.len(),
    ensures
        decreases_to!(v => (v->Arr_0)@[i]),
{
    assert(decreases_to!(v => v->Arr_0));
    assert(decreases_to!(v->Arr_0 => (v->Arr_0)@[i]));
}

/// An object entry's value is structurally smaller than the object value itself.
pub proof fn lemma_obj_elem_smaller(v: JsonValue, i: int)
    requires
        v is Obj,
        0 <= i < (v->Obj_0)@.len(),
    ensures
        decreases_to!(v => (v->Obj_0)@[i].1),
{
    assert(decreases_to!(v => v->Obj_0));
    assert(decreases_to!(v->Obj_0 => (v->Obj_0)@[i]));
    assert(decreases_to!((v->Obj_0)@[i] => (v->Obj_0)@[i].1));
}

impl Clone for JsonNum {
    /// A copy with the same model value.
    fn clone(&self) -> (r: Self)
        ensures
            r@ == self@,
    {
        match self {
            JsonNum::U(u) => JsonNum::U(*u),
            JsonNum::I(i) => JsonNum::I(*i),
            JsonNum::Dec(s) => JsonNum::Dec(s.clone()),
        }
    }
}

impl Clone for JsonValue {
    /// A deep copy with the same model value.
    fn clone(&self) -> (r: Self)
        ensures
            r@ == self@,
        decreases *self,
    {
        match self {
            JsonValue::Null => JsonValue::Null,
            JsonValue::Bool(b) => JsonValue::Bool(*b),
            JsonValue::Num(n) => JsonValue::Num(n.clone()),
            JsonValue::Str(s) => JsonValue::Str(s.clone()),
            JsonValue::Arr(x) => {
                let mut out: Vec<JsonValue> = Vec::new();
                let mut i: usize = 0;
                while i < x.len()
                    invariant
                        *self == JsonValue::Arr(*x),
                        i <= x@.len(),
                        out@.len() == i,
                        forall|j: int| 0 <= j < i ==> jdata_of(out@[j]) == jdata_of(x@[j]),
                    decreases x@.len() - i,
                {
                    proof {
                        lemma_arr_elem_smaller(*self, i as int);
                    }
                    out.push(x[i].clone());
                    i = i + 1;
                }
                proof {
                    assert(jdata_of(JsonValue::Arr(out))->Arr_0 =~= jdata_of(
                        JsonValue::Arr(*x),
                    )->Arr_0);
                }
                JsonValue::Arr(out)
            },
            JsonValue::Obj(m) => {
                let mut out: Vec<(String, JsonValue)> = Vec::new();
                let mut i: usize = 0;
                while i < m.len()
                    invariant
                        *self == JsonValue::Obj(*m),
                        i <= m@.len(),
                        out@.len() == i,
                        forall|j: int|
                            0 <= j < i ==> out@[j].0@ == m@[j].0@ && jdata_of(out@[j].1)
                                == jdata_of(m@[j].1),
                    decreases m@.len() - i,
                {
                    proof {
                        lemma_obj_elem_smaller(*self, i as int);
                    }
                    let entry = &m[i];
                    out.push((entry.0.clone(), entry.1.clone()));
                    i = i + 1;
                }
                proof {
                    assert(jdata_of(JsonValue::Obj(out))->Obj_0 =~= jdata_of(
                        JsonValue::Obj(*m),
                    )->Obj_0);
                }
                JsonValue::Obj(out)
            },
        }
    }
}

/// Equality of two JSON numbers as model values.
pub fn num_eq(a: &JsonNum, b: &JsonNum) -> (r: bool)
    ensures
        r == (a@ == b@),
{
    match (a, b) {
        (JsonNum::U(x), JsonNum::U(y)) => *x == *y,
        (JsonNum::I(x), JsonNum::I(y)) => *x == *y,
        (JsonNum::Dec(x), JsonNum::Dec(y)) => str_eq(x.as_str(), y.as_str()),
        _ => false,
    }
}

/// Deep structural equality of two JSON trees.
pub fn json_eq(a: &JsonValue, b: &JsonValue) -> (r: bool)
    ensures
        r == (a@ == b@),
    decreases *a,
{
    match (a, b) {
        (JsonValue::Null, JsonValue::Null) => true,
        (JsonValue::Bool(x), JsonValue::Bool(y)) => *x == *y,
        (JsonValue::Num(x), JsonValue::Num(y)) => num_eq(x, y),
        (JsonValue::Str(x), JsonValue::Str(y)) => str_eq(x.as_str(), y.as_str()),
        (JsonValue::Arr(x), JsonValue::Arr(y)) => {
            if x.len() != y.len() {
                proof {
                    assert(a@->Arr_0.len() == x@.len());
                    assert(b@->Arr_0.len() == y@.len());
                }
                return false;
            }
            let mut i: usize = 0;
            while i < x.len()
                invariant
                    *a == JsonValue::Arr(*x),
                    *b == JsonValue::Arr(*y),
                    x@.len() == y@.len(),
                    i <= x@.len(),
                    forall|j: int| 0 <= j < i ==> jdata_of(x@[j]) == jdata_of(y@[j]),
                decreases x@.len() - i,
            {
                proof {
                    lemma_arr_elem_smaller(*a, i as int);
                }
                if !json_eq(&x[i], &y[i]) {
                    proof {
                        assert(a@->Arr_0[i as int] == jdata_of(x@[i as int]));
                        assert(b@->Arr_0[i as int] == jdata_of(y@[i as int]));
                    }
                    return false;
                }
                i = i + 1;
            }
            proof {
                assert(a@->Arr_0 =~= b@->Arr_0);
            }
            true
        },
        (JsonValue::Obj(x), JsonValue::Obj(y)) => {
            if x.len() != y.len() {
                proof {
                    assert(a@->Obj_0.len() == x@.len());
                    assert(b@->Obj_0.len() == y@.len());
                }
                return false;
            }
            let mut i: usize = 0;
            while i < x.len()
                invariant
                    *a == JsonValue::Obj(*x),
                    *b == JsonValue::Obj(*y),
                    x@.len() == y@.len(),
                    i <= x@.len(),
                    forall|j: int|
                        0 <= j < i ==> x@[j].0@ == y@[j].0@ && jdata_of(x@[j].1) == jdata_of(
                            y@[j].1,
                        ),
                decreases x@.len() - i,
            {
                if !str_eq(x[i].0.as_str(), y[i].0.as_str()) {
                    proof {
                        assert(a@->Obj_0[i as int].0 == x@[i as int].0@);
                        assert(b@->Obj_0[i as int].0 == y@[i as int].0@);
                    }
                    return false;
                }
                proof {
                    lemma_obj_elem_smaller(*a, i as int);
                }
                if !json_eq(&x[i].1, &y[i].1) {
                    proof {
                        assert(a@->Obj_0[i as int].1 == jdata_of(x@[i as int].1));
                        assert(b@->Obj_0[i as int].1 == jdata_of(y@[i as int].1));
                    }
                    return false;
                }
                i = i + 1;
            }
            proof {
                assert(a@->Obj_0 =~= b@->Obj_0);
            }
            true
        },
        _ => false,
    }
}

} // verus!
