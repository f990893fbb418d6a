//! JSON documents as the library holds them: the free-form data of entities,
//! the profiles of endpoints and streams, and command and event payloads.
//! A number keeps the shape a parsed JSON number takes (a non-negative
//! integer, a negative integer, or an `f64` held by its bits); the items of
//! an array and the entries of an object are kept in order.
use vstd::prelude::*;
use crate::text::str_eq;

verus! {

/// A JSON number.
#[derive(Debug, Clone, Copy, PartialEq, Eq, Structural)]
pub enum JsonNumber {
    PosInt(u64),
    NegInt(i64),
    Float(u64),
}

/// A JSON value.
#[derive(Debug, PartialEq, Eq)]
pub enum JsonValue {
    Null,
    Bool(bool),
    Number(JsonNumber),
    Text(String),
    Array(JsonList),
    Object(JsonFields),
}

/// The items of a JSON array.
#[derive(Debug, PartialEq, Eq)]
pub enum JsonList {
    Nil,
    Cons(Box<JsonValue>, Box<JsonList>),
}

/// The entries of a JSON object, in order.
#[derive(Debug, PartialEq, Eq)]
pub enum JsonFields {
    Nil,
    Cons(String, Box<JsonValue>, Box<JsonFields>),
}

impl Clone for JsonValue {
    fn clone(&self) -> (r: Self)
        ensures
            r == *self,
        decreases self,
    {
        match self {
            JsonValue::Null => JsonValue::Null,
            JsonValue::Bool(b) => JsonValue::Bool(*b),
            JsonValue::Number(n) => JsonValue::Number(*n),
            JsonValue::Text(t) => JsonValue::Text(t.clone()),
            JsonValue::Array(items) => JsonValue::Array(items.clone()),
            JsonValue::Object(fields) => JsonValue::Object(fields.clone()),
        }
    }
}

impl Clone for JsonList {
    fn clone(&self) -> (r: Self)
        ensures
            r == *self,
        decreases self,
    {
        match self {
            JsonList::Nil => JsonList::Nil,
            JsonList::Cons(head, tail) => {
                let h: &JsonValue = head;
                let t: &JsonList = tail;
                JsonList::Cons(Box::new(h.clone()), Box::new(t.clone()))
            },
        }
    }
}

impl Clone for JsonFields {
    fn clone(&self) -> (r: Self)
        ensures
            r == *self,
        decreases self,
    {
        match self {
            JsonFields::Nil => JsonFields::Nil,
            JsonFields::Cons(key, value, rest) => {
                let v: &JsonValue = value;
                let r: &JsonFields = rest;
                JsonFields::Cons(key.clone(), Box::new(v.clone()), Box::new(r.clone()))
            },
        }
    }
}

/// The items of an array, in order.
pub open spec fn list_items(l: JsonList) -> Seq<JsonValue>
    decreases l,
{
    match l {
        JsonList::Nil => Seq::empty(),
        JsonList::Cons(head, tail) => seq![*head] + list_items(*tail),
    }
}

/// The entries of an object, in order.
pub open spec fn field_entries(f: JsonFields) -> Seq<(Seq<char>, JsonValue)>
    decreases f,
{
    match f {
        JsonFields::Nil => Seq::empty(),
        JsonFields::Cons(key, value, rest) => seq![(key@, *value)] + field_entries(*rest),
    }
}

/// The value of the first entry named `key`.
pub open spec fn fields_get(f: JsonFields, key: Seq<char>) -> Option<JsonValue>
    decreases f,
{
    match f {
        JsonFields::Nil => None,
        JsonFields::Cons(k, value, rest) => if k@ == key {
            Some(*value)
        } else {
            fields_get(*rest, key)
        },
    }
}

/// `v[key]` as `serde_json::Value::get` reads it: the entry of an object,
/// nothing for any other value.
pub open spec fn json_get(v: JsonValue, key: Seq<char>) -> Option<JsonValue> {
    match v {
        JsonValue::Object(f) => fields_get(f, key),
        _ => None,
    }
}

/// `get` on an optional value.
pub open spec fn json_get_opt(v: Option<JsonValue>, key: Seq<char>) -> Option<JsonValue> {
    match v {
        Some(x) => json_get(x, key),
        None => None,
    }
}

/// `as_bool`: the value of a boolean.
pub open spec fn json_bool(v: Option<JsonValue>) -> Option<bool> {
    match v {
        Some(JsonValue::Bool(b)) => Some(b),
        _ => None,
    }
}

/// `as_u64`: a non-negative integer; negative integers and floats give
/// nothing.
pub open spec fn json_u64(v: Option<JsonValue>) -> Option<u64> {
    match v {
        Some(JsonValue::Number(JsonNumber::PosInt(n))) => Some(n),
        _ => None,
    }
}

/// `as_str`: the text of a string.
pub open spec fn json_text(v: Option<JsonValue>) -> Option<Seq<char>> {
    match v {
        Some(JsonValue::Text(t)) => Some(t@),
        _ => None,
    }
}

/// `as_array`: the items of an array.
pub open spec fn json_items(v: Option<JsonValue>) -> Option<Seq<JsonValue>> {
    match v {
        Some(JsonValue::Array(l)) => Some(list_items(l)),
        _ => None,
    }
}

/// The texts among the items, in order; other items are skipped.
pub open spec fn texts_among(items: Seq<JsonValue>) -> Seq<Seq<char>>
    decreases items.len(),
{
    if items.len() == 0 {
        Seq::empty()
    } else {
        texts_among(items.drop_last()) + match items.last() {
            JsonValue::Text(t) => seq![t@],
            _ => Seq::empty(),
        }
    }
}

fn fields_lookup<'a>(f: &'a JsonFields, key: &str) -> (r: Option<&'a JsonValue>)
    ensures
        match fields_get(*f, key@) {
            Some(v) => r matches Some(x) && *x == v,
            None => r is None,
        },
    decreases f,
{
    match f {
        JsonFields::Nil => None,
        JsonFields::Cons(k, value, rest) => {
            if str_eq(k.as_str(), key) {
                let v: &JsonValue = value;
                Some(v)
            } else {
                let r: &JsonFields = rest;
                fields_lookup(r, key)
            }
        },
    }
}

fn list_to_vec(l: &JsonList) -> (r: Vec<JsonValue>)
    ensures
        r@ == list_items(*l),
    decreases l,
{
    match l {
        JsonList::Nil => Vec::new(),
        JsonList::Cons(head, tail) => {
            let h: &JsonValue = head;
            let t: &JsonList = tail;
            let mut r: Vec<JsonValue> = Vec::new();
            r.push(h.clone());
            let mut rest = list_to_vec(t);
            r.append(&mut rest);
            assert(r@ =~= seq![*h] + list_items(*t));
            r
        },
    }
}

impl JsonValue {
    /// The field `key` of an object.
    pub fn get(&self, key: &str) -> (r: Option<&JsonValue>)
        ensures
            match json_get(*self, key@) {
                Some(v) => r matches Some(x) && *x == v,
                None => r is None,
            },
    {
        match self {
            JsonValue::Object(f) => fields_lookup(f, key),
            _ => None,
        }
    }

    pub fn as_bool(&self) -> (r: Option<bool>)
        ensures
            r == json_bool(Some(*self)),
    {
        match self {
            JsonValue::Bool(b) => Some(*b),
            _ => None,
        }
    }

    pub fn as_u64(&self) -> (r: Option<u64>)
        ensures
            r == json_u64(Some(*self)),
    {
        match self {
            JsonValue::Number(JsonNumber::PosInt(n)) => Some(*n),
            _ => None,
        }
    }

    pub fn as_text(&self) -> (r: Option<&String>)
        ensures
            match json_text(Some(*self)) {
                Some(t) => r matches Some(s) && s@ == t,
                None => r is None,
            },
    {
        match self {
            JsonValue::Text(t) => Some(t),
            _ => None,
        }
    }

    /// The items of an array, copied.
    pub fn items(&self) -> (r: Option<Vec<JsonValue>>)
        ensures
            match json_items(Some(*self)) {
                Some(s) => r matches Some(v) && v@ == s,
                None => r is None,
            },
    {
        match self {
            JsonValue::Array(l) => Some(list_to_vec(l)),
            _ => None,
        }
    }

    /// An array of `items`, in order.
    pub fn array(items: Vec<JsonValue>) -> (r: JsonValue)
        ensures
            r matches JsonValue::Array(l) && list_items(l) == items@,
            json_view(r) == JsonModel::Array(items@.map_values(|x: JsonValue| json_view(x))),
    {
        let ghost all = items@;
        let mut rest = items;
        let mut l = JsonList::Nil;
        while rest.len() > 0
            invariant
                all == rest@ + list_items(l),
                all.map_values(|x: JsonValue| json_view(x)) == rest@.map_values(|x: JsonValue| json_view(x)) + list_view(l),
            decreases rest@.len(),
        {
            let ghost r0 = rest@;
            let last = rest.pop().unwrap();
            let ghost before = l;
            l = JsonList::Cons(Box::new(last), Box::new(l));
            assert(list_items(l) =~= seq![last] + list_items(before));
            assert(list_view(l) =~= seq![json_view(last)] + list_view(before));
            assert(r0 =~= rest@.push(last));
            assert(all =~= rest@ + list_items(l));
            assert(r0.map_values(|x: JsonValue| json_view(x)) =~= rest@.map_values(|x: JsonValue| json_view(x)).push(
                json_view(last),
            ));
            assert(all.map_values(|x: JsonValue| json_view(x)) =~= rest@.map_values(|x: JsonValue| json_view(x))
                + list_view(l));
        }
        assert(all =~= list_items(l));
        assert(all.map_values(|x: JsonValue| json_view(x)) =~= list_view(l));
        JsonValue::Array(l)
    }

    /// An object of `entries`, in order.
    pub fn object(entries: Vec<(String, JsonValue)>) -> (r: JsonValue)
        ensures
            r matches JsonValue::Object(f) && field_entries(f) == entries@.map_values(
                |e: (String, JsonValue)| (e.0@, e.1),
            ),
    {
        let ghost all = entries@.map_values(|e: (String, JsonValue)| (e.0@, e.1));
        let mut rest = entries;
        let mut f = JsonFields::Nil;
        while rest.len() > 0
            invariant
                all == rest@.map_values(|e: (String, JsonValue)| (e.0@, e.1)) + field_entries(f),
            decreases rest@.len(),
        {
            let ghost r0 = rest@;
            let (key, value) = rest.pop().unwrap();
            let ghost before = f;
            f = JsonFields::Cons(key, Box::new(value), Box::new(f));
            assert(field_entries(f) =~= seq![(key@, value)] + field_entries(before));
            assert(r0 =~= rest@.push((key, value)));
            assert(all =~= rest@.map_values(|e: (String, JsonValue)| (e.0@, e.1)) + field_entries(f));
        }
        assert(all =~= field_entries(f));
        JsonValue::Object(f)
    }

    /// The object `{key: value}`.
    pub fn object1(key: &str, value: JsonValue) -> (r: JsonValue)
        ensures
            r matches JsonValue::Object(f) && field_entries(f) == seq![(key@, value)],
    {
        let r = JsonValue::Object(JsonFields::Cons(String::from_str(key), Box::new(value), Box::new(JsonFields::Nil)));
        assert(field_entries(r->Object_0) =~= seq![(key@, value)]) by {
            reveal_with_fuel(field_entries, 2);
        }
        r
    }
}

/// A JSON value as a mathematical object: texts as character sequences,
/// arrays and objects as sequences.
pub enum JsonModel {
    Null,
    Bool(bool),
    Number(JsonNumber),
    Text(Seq<char>),
    Array(Seq<JsonModel>),
    Object(Seq<(Seq<char>, JsonModel)>),
}

pub open spec fn json_view(v: JsonValue) -> JsonModel
    decreases v,
{
    match v {
        JsonValue::Null => JsonModel::Null,
        JsonValue::Bool(b) => JsonModel::Bool(b),
        JsonValue::Number(n) => JsonModel::Number(n),
        JsonValue::Text(t) => JsonModel::Text(t@),
        JsonValue::Array(l) => JsonModel::Array(list_view(l)),
        JsonValue::Object(f) => JsonModel::Object(fields_view(f)),
    }
}

pub open spec fn list_view(l: JsonList) -> Seq<JsonModel>
    decreases l,
{
    match l {
        JsonList::Nil => Seq::empty(),
        JsonList::Cons(head, tail) => seq![json_view(*head)] + list_view(*tail),
    }
}

pub open spec fn fields_view(f: JsonFields) -> Seq<(Seq<char>, JsonModel)>
    decreases f,
{
    match f {
        JsonFields::Nil => Seq::empty(),
        JsonFields::Cons(key, value, rest) => seq![(key@, json_view(*value))] + fields_view(*rest),
    }
}

/// The value of the first entry named `key`.
pub open spec fn model_get(fs: Seq<(Seq<char>, JsonModel)>, key: Seq<char>) -> Option<JsonModel>
    decreases fs.len(),
{
    if fs.len() == 0 {
        None
    } else if fs[0].0 == key {
        Some(fs[0].1)
    } else {
        model_get(fs.drop_first(), key)
    }
}

/// The entries with `key` set to `v`: the first entry named `key` takes the
/// value in place, or a new entry is added at the end.
pub open spec fn model_set(fs: Seq<(Seq<char>, JsonModel)>, key: Seq<char>, v: JsonModel) -> Seq<(Seq<char>, JsonModel)>
    decreases fs.len(),
{
    if fs.len() == 0 {
        seq![(key, v)]
    } else if fs[0].0 == key {
        seq![(key, v)] + fs.drop_first()
    } else {
        seq![fs[0]] + model_set(fs.drop_first(), key, v)
    }
}

/// The entries of an object, none for any other value.
pub open spec fn object_entries(m: JsonModel) -> Seq<(Seq<char>, JsonModel)> {
    match m {
        JsonModel::Object(fs) => fs,
        _ => Seq::empty(),
    }
}

/// Setting `key` and then reading it gives the value set.
pub proof fn law_set_then_get(fs: Seq<(Seq<char>, JsonModel)>, key: Seq<char>, v: JsonModel, other: Seq<char>)
    ensures
        model_get(model_set(fs, key, v), key) == Some(v),
        other != key ==> model_get(model_set(fs, key, v), other) == model_get(fs, other),
    decreases fs.len(),
{
    let s = model_set(fs, key, v);
    if fs.len() == 0 {
        assert(s[0] == (key, v));
        assert(s.drop_first() =~= Seq::<(Seq<char>, JsonModel)>::empty());
        if other != key {
            assert(model_get(s, other) == model_get(s.drop_first(), other));
        }
    } else if fs[0].0 == key {
        assert(s[0] == (key, v));
        assert(s.drop_first() =~= fs.drop_first());
        if other != key {
            assert(model_get(s, other) == model_get(s.drop_first(), other));
            assert(model_get(fs, other) == model_get(fs.drop_first(), other));
        }
    } else {
        law_set_then_get(fs.drop_first(), key, v, other);
        assert(s[0] == fs[0]);
        assert(s.drop_first() =~= model_set(fs.drop_first(), key, v));
        if other != key && fs[0].0 != other {
            assert(model_get(s, other) == model_get(s.drop_first(), other));
            assert(model_get(fs, other) == model_get(fs.drop_first(), other));
        }
    }
}

impl JsonFields {
    /// `rest` with the entry `key: value` in front.
    pub fn cons(key: &str, value: JsonValue, rest: JsonFields) -> (r: JsonFields)
        ensures
            fields_view(r) == seq![(key@, json_view(value))] + fields_view(rest),
    {
        JsonFields::Cons(String::from_str(key), Box::new(value), Box::new(rest))
    }

    /// The entries with `key` set to `v` (see `model_set`).
    pub fn set(self, key: &str, v: JsonValue) -> (r: JsonFields)
        ensures
            fields_view(r) == model_set(fields_view(self), key@, json_view(v)),
        decreases self,
    {
        match self {
            JsonFields::Nil => {
                let r = JsonFields::Cons(String::from_str(key), Box::new(v), Box::new(JsonFields::Nil));
                assert(fields_view(r) =~= seq![(key@, json_view(v))]) by {
                    reveal_with_fuel(fields_view, 2);
                }
                r
            },
            JsonFields::Cons(k, value, rest) => {
                let ghost old_view = fields_view(JsonFields::Cons(k, value, rest));
                if str_eq(k.as_str(), key) {
                    let r = JsonFields::Cons(k, Box::new(v), rest);
                    assert(old_view.drop_first() =~= fields_view(*rest));
                    assert(fields_view(r) =~= seq![(key@, json_view(v))] + old_view.drop_first());
                    r
                } else {
                    let tail: JsonFields = *rest;
                    let ghost tail_view = fields_view(tail);
                    let new_tail = tail.set(key, v);
                    assert(old_view.drop_first() =~= tail_view);
                    let r = JsonFields::Cons(k, value, Box::new(new_tail));
                    assert(fields_view(r) =~= seq![old_view[0]] + model_set(old_view.drop_first(), key@, json_view(v)));
                    r
                }
            },
        }
    }

    /// The value of the first entry named `key`.
    pub fn lookup(&self, key: &str) -> (r: Option<&JsonValue>)
        ensures
            match model_get(fields_view(*self), key@) {
                Some(m) => r matches Some(x) && json_view(*x) == m,
                None => r is None,
            },
        decreases self,
    {
        match self {
            JsonFields::Nil => None,
            JsonFields::Cons(k, value, rest) => {
                assert(fields_view(*self).drop_first() =~= fields_view(**rest));
                if str_eq(k.as_str(), key) {
                    let v: &JsonValue = value;
                    Some(v)
                } else {
                    let r: &JsonFields = rest;
                    r.lookup(key)
                }
            },
        }
    }
}

} // verus!
