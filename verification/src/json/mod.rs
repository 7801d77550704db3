//! JSON values, and the text they are read from and written to.

pub mod access;
pub mod serde_text;

use vstd::prelude::*;

use crate::table;
use crate::table::Table;

verus! {

/// A JSON number: an integer, or the decimal text of a double.
#[derive(Debug, PartialEq)]
pub enum JsonNumber {
    PosInt(u64),
    NegInt(i64),
    Float(String),
}

/// A JSON value.
#[derive(Debug, PartialEq)]
pub enum Json {
    Null,
    Bool(bool),
    Number(JsonNumber),
    Str(String),
    Array(Vec<Json>),
    Object(Table<Json>),
}

/// What a JSON number says.
pub enum NumberView {
    Int(int),
    Float(Seq<char>),
}

/// What a JSON value says: the order of an object's keys is not part of it.
pub enum JsonView {
    Null,
    Bool(bool),
    Number(NumberView),
    Str(Seq<char>),
    Array(Seq<JsonView>),
    Object(Map<Seq<char>, JsonView>),
}

impl View for JsonNumber {
    type V = NumberView;

    open spec fn view(&self) -> NumberView {
        match *self {
            JsonNumber::PosInt(n) => NumberView::Int(n as int),
            JsonNumber::NegInt(n) => NumberView::Int(n as int),
            JsonNumber::Float(t) => NumberView::Float(t@),
        }
    }
}

impl Json {
    pub closed spec fn model(self) -> JsonView
        decreases self,
    {
        match self {
            Json::Null => JsonView::Null,
            Json::Bool(b) => JsonView::Bool(b),
            Json::Number(n) => JsonView::Number(n@),
            Json::Str(s) => JsonView::Str(s@),
            Json::Array(items) => JsonView::Array(
                Seq::new(
                    items@.len(),
                    |i: int|
                        if 0 <= i < items@.len() {
                            items@[i].model()
                        } else {
                            JsonView::Null
                        },
                ),
            ),
            Json::Object(t) => JsonView::Object(
                Map::new(
                    |k: Seq<char>| t@.dom().contains(k),
                    |k: Seq<char>|
                        {
                            let i = table::row_of(t.rows(), k);
                            if 0 <= i < t.entries@.len() {
                                t.entries@[i].1.model()
                            } else {
                                JsonView::Null
                            }
                        },
                ),
            ),
        }
    }
}

impl View for Json {
    type V = JsonView;

    open spec fn view(&self) -> JsonView {
        self.model()
    }
}

/// What the values of an array say.
pub open spec fn items_view(items: Seq<Json>) -> Seq<JsonView> {
    items.map_values(|v: Json| v.model())
}

/// What the values of an object say.
pub open spec fn fields_view(t: Map<Seq<char>, Json>) -> Map<Seq<char>, JsonView> {
    t.map_values(|v: Json| v.model())
}

/// What a value says, in terms of what its parts say.
pub open spec fn outline(j: Json) -> JsonView {
    match j {
        Json::Null => JsonView::Null,
        Json::Bool(b) => JsonView::Bool(b),
        Json::Number(n) => JsonView::Number(n@),
        Json::Str(s) => JsonView::Str(s@),
        Json::Array(items) => JsonView::Array(items_view(items@)),
        Json::Object(t) => JsonView::Object(fields_view(t@)),
    }
}

pub broadcast proof fn model_outline(j: Json)
    ensures
        #[trigger] j.model() == outline(j),
{
    match j {
        Json::Array(items) => {
            assert(j.model()->Array_0 =~= items_view(items@));
        },
        Json::Object(t) => {
            table::rows_are_entries(t);
            assert forall|k: Seq<char>| t@.dom().contains(k) implies j.model()->Object_0[k] == fields_view(t@)[k] by {
                let i = table::row_of(t.rows(), k);
                assert(table::has_key(t.rows(), k));
                assert(t.rows()[i] == (t.entries@[i].0@, t.entries@[i].1));
            }
            assert(j.model()->Object_0 =~= fields_view(t@));
        },
        _ => {},
    }
}


/// The value of an object's key.
pub open spec fn field(v: JsonView, k: Seq<char>) -> Option<JsonView> {
    match v {
        JsonView::Object(m) => if m.dom().contains(k) {
            Some(m[k])
        } else {
            None
        },
        _ => None,
    }
}

/// The text of a string value.
pub open spec fn text_of(v: JsonView) -> Option<Seq<char>> {
    match v {
        JsonView::Str(s) => Some(s),
        _ => None,
    }
}

/// The integer in a value that is one and lies between the bounds.
pub open spec fn int_between(v: JsonView, lo: int, hi: int) -> Option<int> {
    match v {
        JsonView::Number(NumberView::Int(n)) => if lo <= n <= hi {
            Some(n)
        } else {
            None
        },
        _ => None,
    }
}

pub broadcast proof fn items_view_push(items: Seq<Json>, v: Json)
    ensures
        #[trigger] items_view(items.push(v)) == items_view(items).push(v.model()),
{
    assert(items_view(items.push(v)) =~= items_view(items).push(v.model()));
}

pub broadcast proof fn fields_view_insert(m: Map<Seq<char>, Json>, k: Seq<char>, v: Json)
    ensures
        #[trigger] fields_view(m.insert(k, v)) == fields_view(m).insert(k, v.model()),
{
    assert(fields_view(m.insert(k, v)) =~= fields_view(m).insert(k, v.model()));
}

pub broadcast proof fn fields_view_remove(m: Map<Seq<char>, Json>, k: Seq<char>)
    ensures
        #[trigger] fields_view(m.remove(k)) == fields_view(m).remove(k),
{
    assert(fields_view(m.remove(k)) =~= fields_view(m).remove(k));
}

pub broadcast proof fn fields_view_empty(m: Map<Seq<char>, Json>)
    requires
        m == Map::<Seq<char>, Json>::empty(),
    ensures
        #[trigger] fields_view(m) == Map::<Seq<char>, JsonView>::empty(),
{
    assert(fields_view(m) =~= Map::<Seq<char>, JsonView>::empty());
}

pub broadcast group group_json {
    model_outline,
    items_view_push,
    fields_view_insert,
    fields_view_remove,
    fields_view_empty,
}

/// What a value says is what it holds, part by part.
pub proof fn values_say_what_they_hold(b: bool, n: JsonNumber, s: String, items: Vec<Json>, t: Table<Json>)
    ensures
        Json::Null@ == JsonView::Null,
        Json::Bool(b)@ == JsonView::Bool(b),
        Json::Str(s)@ == JsonView::Str(s@),
        Json::Number(n)@ == JsonView::Number(
            match n {
                JsonNumber::PosInt(k) => NumberView::Int(k as int),
                JsonNumber::NegInt(k) => NumberView::Int(k as int),
                JsonNumber::Float(x) => NumberView::Float(x@),
            },
        ),
        Json::Array(items)@ matches JsonView::Array(v) && v.len() == items@.len() && forall|i: int|
            0 <= i < v.len() ==> #[trigger] v[i] == items@[i]@,
        Json::Object(t)@ matches JsonView::Object(m) && m.dom() == t@.dom() && forall|k: Seq<char>| #[trigger]
            m.dom().contains(k) ==> m[k] == t@[k]@,
{
    broadcast use group_json;

    assert(Json::Object(t)@->Object_0.dom() =~= t@.dom());
}

/// A field is found in an object that has it, and nowhere else. A text is found in a string, and an
/// integer in a number that is one and within the bounds.
pub proof fn fields_and_scalars_are_read(v: JsonView, m: Map<Seq<char>, JsonView>, k: Seq<char>, n: int, lo: int, hi: int)
    ensures
        m.dom().contains(k) ==> field(JsonView::Object(m), k) == Some(m[k]),
        !m.dom().contains(k) ==> field(JsonView::Object(m), k) is None,
        !(v is Object) ==> field(v, k) is None,
        text_of(JsonView::Str(k)) == Some(k),
        !(v is Str) ==> text_of(v) is None,
        lo <= n <= hi ==> int_between(JsonView::Number(NumberView::Int(n)), lo, hi) == Some(n),
        !(lo <= n <= hi) ==> int_between(JsonView::Number(NumberView::Int(n)), lo, hi) is None,
        int_between(JsonView::Number(NumberView::Float(k)), lo, hi) is None,
        !(v is Number) ==> int_between(v, lo, hi) is None,
{
}

} // verus!
