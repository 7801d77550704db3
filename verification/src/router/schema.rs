//! The JSON schema that the extracted parameters have to fit. It is made of the parameters of one
//! workflow and of nothing else.

use vstd::prelude::*;

use crate::definition;
use crate::definition::{ParameterSpec, ParameterSpecView, ParameterType};
use crate::json;
use crate::json::{Json, JsonView};
use crate::table;
use crate::table::Table;
use crate::text;

verus! {

broadcast use crate::json::group_json;

/// The name of the type in a schema.
pub open spec fn schema_type(t: ParameterType) -> Seq<char> {
    match t {
        ParameterType::String => "string"@,
        ParameterType::Int => "integer"@,
        ParameterType::Bool => "boolean"@,
    }
}

/// The schema of one parameter.
pub open spec fn property_of(p: ParameterSpecView) -> JsonView {
    let typed = Map::<Seq<char>, JsonView>::empty().insert("type"@, JsonView::Str(schema_type(p.type_)));
    match p.description {
        Some(d) => JsonView::Object(typed.insert("description"@, JsonView::Str(d))),
        None => JsonView::Object(typed),
    }
}

/// The names of the parameters that have to be there.
pub open spec fn required_of(params: Map<Seq<char>, ParameterSpecView>) -> Set<Seq<char>> {
    Set::new(|k: Seq<char>| params.dom().contains(k) && params[k].required)
}

/// The schema of an object with the parameters: each with its type, those that are required listed
/// in the order of their names, and no others.
pub open spec fn schema_of(params: Map<Seq<char>, ParameterSpecView>) -> JsonView {
    JsonView::Object(
        Map::<Seq<char>, JsonView>::empty().insert("type"@, JsonView::Str("object"@)).insert(
            "properties"@,
            JsonView::Object(params.map_values(|p: ParameterSpecView| property_of(p))),
        ).insert(
            "required"@,
            JsonView::Array(table::listed(required_of(params)).map_values(|k: Seq<char>| JsonView::Str(k))),
        ).insert("additionalProperties"@, JsonView::Bool(false)),
    )
}

fn property(p: &ParameterSpec) -> (r: Json)
    ensures
        r@ == property_of(p@),
{
    let mut t: Table<Json> = Table::new();
    let type_ = match p.type_ {
        ParameterType::String => "string",
        ParameterType::Int => "integer",
        ParameterType::Bool => "boolean",
    };
    t.insert("type".to_owned(), Json::Str(type_.to_owned()));
    if let Some(d) = &p.description {
        t.insert("description".to_owned(), Json::Str(d.clone()));
    }
    Json::Object(t)
}

/// The schema of an object with the parameters.
pub fn build_param_schema(params: &Table<ParameterSpec>) -> (r: Json)
    ensures
        r@ == schema_of(definition::parameters_view(params@)),
{
    let ghost p = definition::parameters_view(params@);
    let ghost rows = params.rows();
    let n = params.len();
    let mut properties: Table<Json> = Table::new();
    let mut required: Vec<Json> = Vec::new();
    let ghost mut names: Seq<Seq<char>> = Seq::empty();
    let mut i: usize = 0;
    let ghost done = |i: int| definition::parameters_view(table::map_of_rows(rows.take(i))).map_values(
        |p: ParameterSpecView| property_of(p),
    );
    proof {
        assert(json::fields_view(properties@) =~= done(0));
        assert(json::items_view(required@) =~= names.map_values(|k: Seq<char>| JsonView::Str(k)));
    }
    while i < n
        invariant
            i <= n,
            n == rows.len(),
            rows == params.rows(),
            table::in_key_order(rows),
            forall|i: int|
                #[trigger] done(i) == definition::parameters_view(table::map_of_rows(rows.take(i))).map_values(
                    |p: ParameterSpecView| property_of(p),
                ),
            json::fields_view(properties@) == done(i as int),
            json::items_view(required@) == names.map_values(|k: Seq<char>| JsonView::Str(k)),
            forall|a: int, b: int| 0 <= a < b < names.len() ==> text::text_lt(#[trigger] names[a], #[trigger] names[b]),
            forall|a: int|
                0 <= a < names.len() ==> exists|j: int|
                    0 <= j < i && #[trigger] rows[j].0 == #[trigger] names[a] && rows[j].1.required,
            forall|j: int| 0 <= j < i && rows[j].1.required ==> names.contains(#[trigger] rows[j].0),
        decreases n - i,
    {
        let name = params.key_at(i);
        let spec_ = params.value_at(i);
        properties.insert(name.clone(), property(spec_));
        proof {
            table::rows_one_more(rows, i as int);
            let before = table::map_of_rows(rows.take(i as int));
            assert(definition::parameters_view(before.insert(name@, *spec_)) =~= definition::parameters_view(
                before,
            ).insert(name@, spec_@));
            assert(done(i + 1) =~= done(i as int).insert(name@, property_of(spec_@)));
        }
        if spec_.required {
            let ghost names0 = names;
            required.push(Json::Str(name.clone()));
            proof {
                names = names0.push(name@);
                assert(names.map_values(|k: Seq<char>| JsonView::Str(k)) =~= names0.map_values(
                    |k: Seq<char>| JsonView::Str(k),
                ).push(JsonView::Str(name@)));
                assert forall|a: int, b: int| 0 <= a < b < names.len() implies text::text_lt(
                    #[trigger] names[a],
                    #[trigger] names[b],
                ) by {
                    assert(names[a] == names0[a]);
                    if b < names0.len() {
                        assert(names[b] == names0[b]);
                    } else {
                        let j = choose|j: int|
                            0 <= j < i && #[trigger] rows[j].0 == names0[a] && rows[j].1.required;
                        assert(text::text_lt(rows[j].0, rows[i as int].0));
                    }
                }
                assert forall|a: int| 0 <= a < names.len() implies exists|j: int|
                    0 <= j < i + 1 && #[trigger] rows[j].0 == #[trigger] names[a] && rows[j].1.required by {
                    if a < names0.len() {
                        assert(names[a] == names0[a]);
                        let j = choose|j: int|
                            0 <= j < i && #[trigger] rows[j].0 == names0[a] && rows[j].1.required;
                        assert(rows[j].0 == names[a]);
                    } else {
                        assert(rows[i as int].0 == names[a]);
                    }
                }
                assert forall|j: int| 0 <= j < i + 1 && rows[j].1.required implies names.contains(
                    #[trigger] rows[j].0,
                ) by {
                    if j < i {
                        let a = choose|a: int| 0 <= a < names0.len() && names0[a] == rows[j].0;
                        assert(names[a] == rows[j].0);
                    } else {
                        assert(names[names0.len() as int] == rows[j].0);
                    }
                }
            }
        } else {
            assert forall|a: int| 0 <= a < names.len() implies exists|j: int|
                0 <= j < i + 1 && #[trigger] rows[j].0 == #[trigger] names[a] && rows[j].1.required by {
                let j = choose|j: int| 0 <= j < i && #[trigger] rows[j].0 == names[a] && rows[j].1.required;
                assert(rows[j].0 == names[a]);
            }
        }
        i = i + 1;
    }
    proof {
        assert(rows.take(n as int) =~= rows);
        let set = required_of(p);
        assert forall|k: Seq<char>| #[trigger] names.contains(k) <==> set.contains(k) by {
            if names.contains(k) {
                let a = choose|a: int| 0 <= a < names.len() && names[a] == k;
                let j = choose|j: int| 0 <= j < n && #[trigger] rows[j].0 == names[a] && rows[j].1.required;
                table::row_is_unique(rows, j);
            }
            if set.contains(k) {
                assert(table::has_key(rows, k));
                let j = table::row_of(rows, k);
                table::row_is_unique(rows, j);
            }
        }
        table::listed_is(names, set);
    }
    let mut schema: Table<Json> = Table::new();
    schema.insert("type".to_owned(), Json::Str("object".to_owned()));
    schema.insert("properties".to_owned(), Json::Object(properties));
    schema.insert("required".to_owned(), Json::Array(required));
    schema.insert("additionalProperties".to_owned(), Json::Bool(false));
    Json::Object(schema)
}

/// The schema asks for an object with no other properties than the parameters of the workflow. Each
/// is of the JSON type that its own type stands for, with its description where it has one, and a
/// name is among the required ones exactly where its parameter is required.
pub proof fn schemas_ask_for_the_parameters(params: Map<Seq<char>, ParameterSpecView>, names: Seq<Seq<char>>, k: Seq<char>)
    requires
        forall|i: int, j: int| 0 <= i < j < names.len() ==> text::text_lt(#[trigger] names[i], #[trigger] names[j]),
        forall|n: Seq<char>| #[trigger] names.contains(n) <==> params.dom().contains(n) && params[n].required,
    ensures
        schema_of(params) matches JsonView::Object(s) && {
            &&& s.dom() == set!["type"@, "properties"@, "required"@, "additionalProperties"@]
            &&& s["type"@] == JsonView::Str("object"@)
            &&& s["additionalProperties"@] == JsonView::Bool(false)
            &&& s["required"@] == JsonView::Array(names.map_values(|n: Seq<char>| JsonView::Str(n)))
            &&& s["properties"@] matches JsonView::Object(ps) && ps.dom() == params.dom() && (params.dom().contains(k)
                ==> (ps[k] matches JsonView::Object(p) && p.dom().contains("type"@) && p["type"@] == JsonView::Str(
                match params[k].type_ {
                    ParameterType::String => "string"@,
                    ParameterType::Int => "integer"@,
                    ParameterType::Bool => "boolean"@,
                },
            ) && match params[k].description {
                Some(d) => p.dom() == set!["type"@, "description"@] && p["description"@] == JsonView::Str(d),
                None => p.dom() == set!["type"@],
            }))
        },
{
    reveal_strlit("type");
    reveal_strlit("properties");
    reveal_strlit("required");
    reveal_strlit("additionalProperties");
    reveal_strlit("description");
    assert("type"@.len() == 4 && "properties"@.len() == 10 && "required"@.len() == 8 && "additionalProperties"@.len()
        == 20 && "description"@.len() == 11);
    let set = required_of(params);
    assert(table::is_list_of(names, set));
    table::listed_is(names, set);
    let s = schema_of(params)->Object_0;
    assert(s.dom() =~= set!["type"@, "properties"@, "required"@, "additionalProperties"@]);
    let ps = s["properties"@]->Object_0;
    assert(ps.dom() =~= params.dom());
    if params.dom().contains(k) {
        let p = property_of(params[k])->Object_0;
        assert(ps[k] == property_of(params[k]));
        if params[k].description is Some {
            assert(p.dom() =~= set!["type"@, "description"@]);
        } else {
            assert(p.dom() =~= set!["type"@]);
        }
    }
}

} // verus!
