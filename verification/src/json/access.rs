//! Reading and copying JSON values.

use vstd::prelude::*;

use crate::json;
use crate::json::{Json, JsonNumber, JsonView};
use crate::table;
use crate::table::Table;

verus! {

broadcast use crate::json::group_json;

impl JsonNumber {
    pub fn copy(&self) -> (r: JsonNumber)
        ensures
            r@ == self@,
    {
        match self {
            JsonNumber::PosInt(n) => JsonNumber::PosInt(*n),
            JsonNumber::NegInt(n) => JsonNumber::NegInt(*n),
            JsonNumber::Float(t) => JsonNumber::Float(t.clone()),
        }
    }
}

fn copy_items(items: &Vec<Json>) -> (r: Vec<Json>)
    ensures
        json::items_view(r@) == json::items_view(items@),
    decreases items,
{
    let mut out: Vec<Json> = Vec::new();
    let mut i: usize = 0;
    while i < items.len()
        invariant
            i <= items@.len(),
            json::items_view(out@) == json::items_view(items@).take(i as int),
        decreases items@.len() - i,
    {
        assert(decreases_to!(*items => items@[i as int]));
        out.push(items[i].copy());
        assert(json::items_view(out@) =~= json::items_view(items@).take(i + 1));
        i = i + 1;
    }
    assert(json::items_view(out@) =~= json::items_view(items@));
    out
}

/// A copy of the table whose values say the same.
pub fn copy_fields(t: &Table<Json>) -> (r: Table<Json>)
    ensures
        json::fields_view(r@) == json::fields_view(t@),
    decreases t,
{
    let mut out: Table<Json> = Table::new();
    let n = t.len();
    let mut i: usize = 0;
    proof {
        table::rows_are_entries(*t);
        assert(json::fields_view(out@) =~= json::fields_view(table::map_of_rows(t.rows().take(0))));
    }
    while i < n
        invariant
            i <= n,
            n == t.rows().len(),
            n == t.entries@.len(),
            table::in_key_order(t.rows()),
            json::fields_view(out@) == json::fields_view(table::map_of_rows(t.rows().take(i as int))),
        decreases n - i,
    {
        proof {
            table::rows_are_entries(*t);
            table::rows_one_more(t.rows(), i as int);
        }
        assert(t.rows()[i as int] == (t.entries@[i as int].0@, t.entries@[i as int].1));
        assert(decreases_to!(*t => t.entries@[i as int].1));
        let k = t.key_at(i).clone();
        let v = t.value_at(i).copy();
        out.insert(k, v);
        i = i + 1;
    }
    assert(t.rows().take(n as int) =~= t.rows());
    out
}

impl Json {
    /// A copy that says the same.
    pub fn copy(&self) -> (r: Json)
        ensures
            r@ == self@,
        decreases self,
    {
        match self {
            Json::Null => Json::Null,
            Json::Bool(b) => Json::Bool(*b),
            Json::Number(n) => Json::Number(n.copy()),
            Json::Str(s) => Json::Str(s.clone()),
            Json::Array(items) => Json::Array(copy_items(items)),
            Json::Object(t) => Json::Object(copy_fields(t)),
        }
    }

    /// The value of the key, where this is an object that has it.
    pub fn get(&self, k: &str) -> (r: Option<&Json>)
        ensures
            match r {
                Some(v) => json::field(self@, k@) == Some(v@),
                None => json::field(self@, k@) is None,
            },
    {
        match self {
            Json::Object(t) => t.get(k),
            _ => None,
        }
    }

    /// The text, where this is a string.
    pub fn as_str(&self) -> (r: Option<&String>)
        ensures
            match r {
                Some(s) => json::text_of(self@) == Some(s@),
                None => json::text_of(self@) is None,
            },
    {
        match self {
            Json::Str(s) => Some(s),
            _ => None,
        }
    }

    /// The truth value, where this is one.
    pub fn as_bool(&self) -> (r: Option<bool>)
        ensures
            match r {
                Some(b) => self@ == JsonView::Bool(b),
                None => !(self@ is Bool),
            },
    {
        match self {
            Json::Bool(b) => Some(*b),
            _ => None,
        }
    }

    /// The integer, where this is one that fits in 64 bits without a sign.
    pub fn as_u64(&self) -> (r: Option<u64>)
        ensures
            match r {
                Some(n) => json::int_between(self@, 0, u64::MAX as int) == Some(n as int),
                None => json::int_between(self@, 0, u64::MAX as int) is None,
            },
    {
        match self {
            Json::Number(JsonNumber::PosInt(n)) => Some(*n),
            Json::Number(JsonNumber::NegInt(n)) => if *n >= 0 {
                Some(*n as u64)
            } else {
                None
            },
            _ => None,
        }
    }

    /// The integer, where this is one that fits in 64 bits with a sign.
    pub fn as_i64(&self) -> (r: Option<i64>)
        ensures
            match r {
                Some(n) => json::int_between(self@, i64::MIN as int, i64::MAX as int) == Some(n as int),
                None => json::int_between(self@, i64::MIN as int, i64::MAX as int) is None,
            },
    {
        match self {
            Json::Number(JsonNumber::PosInt(n)) => if *n <= i64::MAX as u64 {
                Some(*n as i64)
            } else {
                None
            },
            Json::Number(JsonNumber::NegInt(n)) => Some(*n),
            _ => None,
        }
    }

    /// The elements, where this is an array.
    pub fn as_array(&self) -> (r: Option<&Vec<Json>>)
        ensures
            match r {
                Some(items) => self@ == JsonView::Array(json::items_view(items@)),
                None => !(self@ is Array),
            },
    {
        match self {
            Json::Array(items) => Some(items),
            _ => None,
        }
    }
}

} // verus!
