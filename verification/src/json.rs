//! JSON values as the library reads and writes them: the entries of an
//! object stand in the order of the text, as many times as they occur there.
use vstd::prelude::*;
use crate::error::Error;
use crate::revision::{decimal_string, decimal_text, parse_u64, parse_u64_text};

verus! {

/// A JSON value.
#[derive(Debug, PartialEq)]
pub enum JsonValue {
    Null,
    Bool(bool),
    /// A number, held as its text.
    Number(String),
    String(String),
    Array(Vec<JsonValue>),
    Object(Vec<(String, JsonValue)>),
}

/// The boolean that `v` holds, if it is a boolean.
pub open spec fn json_bool(v: JsonValue) -> Option<bool> {
    match v {
        JsonValue::Bool(b) => Some(b),
        _ => None,
    }
}

/// The text that `v` holds, if it is a string.
pub open spec fn json_text(v: JsonValue) -> Option<Seq<char>> {
    match v {
        JsonValue::String(s) => Some(s@),
        _ => None,
    }
}

/// The unsigned 64-bit number that `v` holds, if it is a number written as
/// decimal digits whose value fits.
pub open spec fn json_u64(v: JsonValue) -> Option<u64> {
    match v {
        JsonValue::Number(t) => parse_u64_text(t@),
        _ => None,
    }
}

/// The JSON number of a given value.
pub open spec fn json_number_of(n: u64) -> Seq<char> {
    decimal_text(n as nat)
}

impl JsonValue {
    /// Returns the boolean, if the value is one.
    pub fn as_bool(&self) -> (r: Option<bool>)
        ensures
            r == json_bool(*self),
    {
        match self {
            JsonValue::Bool(b) => Some(*b),
            _ => None,
        }
    }

    /// Returns the unsigned 64-bit number, if the value is one that fits.
    pub fn as_u64(&self) -> (r: Option<u64>)
        ensures
            r == json_u64(*self),
    {
        match self {
            JsonValue::Number(t) => parse_u64(t.as_str()),
            _ => None,
        }
    }

    /// Makes a JSON number of a value.
    pub fn from_u64(n: u64) -> (r: JsonValue)
        ensures
            r matches JsonValue::Number(t) && t@ == json_number_of(n),
            json_u64(r) == Some(n),
    {
        let t = decimal_string(n);
        proof {
            crate::revision::lemma_decimal_text_parses(n);
        }
        JsonValue::Number(t)
    }

    /// Makes a JSON string.
    pub fn from_str(s: &str) -> (r: JsonValue)
        ensures
            r matches JsonValue::String(t) && t@ == s@,
    {
        JsonValue::String(s.to_owned())
    }
}

/// Whether two strings hold the same characters.
pub fn same_text(a: &str, b: &str) -> (r: bool)
    ensures
        r == (a@ == b@),
{
    crate::path::str_equal(a, b)
}

/// The text of an optional string.
pub open spec fn opt_text(o: Option<String>) -> Option<Seq<char>> {
    match o {
        Some(s) => Some(s@),
        None => None,
    }
}

/// Decoding a sequence item by item: each step takes the state so far and
/// the next item, and either gives the next state or stops with an error,
/// which then stands for the whole sequence.
pub open spec fn decode_fold<S, E>(items: Seq<E>, init: S, step: spec_fn(S, E) -> Result<S, Error>) -> Result<S, Error>
    decreases items.len(),
{
    if items.len() == 0 {
        Ok(init)
    } else {
        match decode_fold(items.drop_last(), init, step) {
            Err(e) => Err(e),
            Ok(s) => step(s, items.last()),
        }
    }
}

/// Decoding one more item of a prefix is one more step.
pub proof fn lemma_decode_fold_step<S, E>(items: Seq<E>, init: S, step: spec_fn(S, E) -> Result<S, Error>, i: int)
    requires
        0 <= i < items.len(),
    ensures
        decode_fold(items.take(i + 1), init, step) == match decode_fold(items.take(i), init, step) {
            Err(e) => Err(e),
            Ok(s) => step(s, items[i]),
        },
{
    assert(items.take(i + 1).drop_last() =~= items.take(i));
}

/// Whether the entry at `i` is the last one of `s` named `k`.
pub open spec fn is_last_named_entry(s: Seq<(String, JsonValue)>, k: Seq<char>, i: int) -> bool {
    &&& 0 <= i < s.len()
    &&& s[i].0@ == k
    &&& forall|j: int| i < j < s.len() ==> (#[trigger] s[j]).0@ != k
}

/// Whether no entry of `s` is named `k`.
pub open spec fn has_no_entry_named(s: Seq<(String, JsonValue)>, k: Seq<char>) -> bool {
    forall|j: int| 0 <= j < s.len() ==> (#[trigger] s[j]).0@ != k
}

/// Once decoding a prefix stops with an error, decoding the whole sequence
/// stops with that error.
pub proof fn lemma_decode_fold_stops<S, E>(items: Seq<E>, init: S, step: spec_fn(S, E) -> Result<S, Error>, i: int)
    requires
        0 <= i <= items.len(),
        decode_fold(items.take(i), init, step) is Err,
    ensures
        decode_fold(items, init, step) == decode_fold(items.take(i), init, step),
    decreases items.len() - i,
{
    if i < items.len() {
        lemma_decode_fold_step(items, init, step, i);
        lemma_decode_fold_stops(items, init, step, i + 1);
    } else {
        assert(items.take(i) =~= items);
    }
}

/// A JSON value, abstractly.
pub enum JsonModel {
    Null,
    Bool(bool),
    Number(Seq<char>),
    Str(Seq<char>),
    Array(Seq<JsonModel>),
    Object(Seq<(Seq<char>, JsonModel)>),
}

/// What a JSON value is, abstractly: the texts of its strings and numbers,
/// and the models of its items and entries.
pub open spec fn json_model(v: JsonValue) -> JsonModel
    decreases v,
{
    match v {
        JsonValue::Null => JsonModel::Null,
        JsonValue::Bool(b) => JsonModel::Bool(b),
        JsonValue::Number(t) => JsonModel::Number(t@),
        JsonValue::String(t) => JsonModel::Str(t@),
        JsonValue::Array(items) => JsonModel::Array(
            Seq::new(items@.len(), |i: int| if 0 <= i < items@.len() { json_model(items@[i]) } else { JsonModel::Null }),
        ),
        JsonValue::Object(es) => JsonModel::Object(
            Seq::new(es@.len(), |i: int| if 0 <= i < es@.len() { (es@[i].0@, json_model(es@[i].1)) } else { (Seq::empty(), JsonModel::Null) }),
        ),
    }
}

/// The models of the entries of an object.
pub open spec fn entries_model(es: Seq<(String, JsonValue)>) -> Seq<(Seq<char>, JsonModel)> {
    Seq::new(es.len(), |i: int| (es[i].0@, json_model(es[i].1)))
}

/// An object is, abstractly, the models of its entries.
pub proof fn lemma_object_model(v: Vec<(String, JsonValue)>)
    ensures
        json_model(JsonValue::Object(v)) == JsonModel::Object(entries_model(v@)),
{
    if let JsonModel::Object(a) = json_model(JsonValue::Object(v)) {
        assert(a =~= entries_model(v@));
    }
}

impl JsonValue {
    /// Makes a copy of the value, one that is the same abstractly.
    pub fn duplicate(&self) -> (r: JsonValue)
        ensures
            json_model(r) == json_model(*self),
        decreases self,
    {
        match self {
            JsonValue::Null => JsonValue::Null,
            JsonValue::Bool(b) => JsonValue::Bool(*b),
            JsonValue::Number(t) => JsonValue::Number(t.clone()),
            JsonValue::String(t) => JsonValue::String(t.clone()),
            JsonValue::Array(items) => {
                let mut out: Vec<JsonValue> = Vec::new();
                let mut i: usize = 0;
                while i < items.len()
                    invariant
                        i <= items@.len(),
                        out@.len() == i,
                        forall|p: int| 0 <= p < i ==> json_model(#[trigger] out@[p]) == json_model(items@[p]),
                        *self == JsonValue::Array(*items),
                    decreases items@.len() - i,
                {
                    proof {
                        assert(decreases_to!(*self => (*self)->Array_0));
                        assert(decreases_to!(*items => items@));
                        assert(decreases_to!(items@ => items@[i as int]));
                        assert(decreases_to!(*self => items@[i as int]));
                    }
                    let x = items[i].duplicate();
                    out.push(x);
                    i = i + 1;
                }
                let r = JsonValue::Array(out);
                assert(json_model(r) =~= json_model(*self)) by {
                    if let JsonModel::Array(a) = json_model(r) {
                        if let JsonModel::Array(b) = json_model(*self) {
                            assert(a =~= b);
                        }
                    }
                }
                r
            },
            JsonValue::Object(es) => {
                let mut out: Vec<(String, JsonValue)> = Vec::new();
                let mut i: usize = 0;
                while i < es.len()
                    invariant
                        i <= es@.len(),
                        out@.len() == i,
                        forall|p: int| 0 <= p < i ==> (#[trigger] out@[p]).0@ == es@[p].0@ && json_model(out@[p].1) == json_model(es@[p].1),
                        *self == JsonValue::Object(*es),
                    decreases es@.len() - i,
                {
                    proof {
                        assert(decreases_to!(*self => (*self)->Object_0));
                        assert(decreases_to!(*es => es@));
                        assert(decreases_to!(es@ => es@[i as int]));
                        assert(decreases_to!(es@[i as int] => es@[i as int].1));
                        assert(decreases_to!(*self => es@[i as int].1));
                    }
                    let x = es[i].1.duplicate();
                    out.push((es[i].0.clone(), x));
                    i = i + 1;
                }
                let r = JsonValue::Object(out);
                assert(json_model(r) =~= json_model(*self)) by {
                    if let JsonModel::Object(a) = json_model(r) {
                        if let JsonModel::Object(b) = json_model(*self) {
                            assert(a =~= b);
                        }
                    }
                }
                r
            },
        }
    }
}

impl Clone for JsonValue {
    fn clone(&self) -> (r: Self)
        ensures
            json_model(r) == json_model(*self),
    {
        self.duplicate()
    }
}

} // verus!
