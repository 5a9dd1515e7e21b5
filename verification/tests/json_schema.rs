use takusu_agent::json_schema::{normalize_schema, Json};

fn s(text: &str) -> Json {
    Json::Str(text.into())
}

fn obj(members: Vec<(&str, Json)>) -> Json {
    Json::Object(members.into_iter().map(|(k, v)| (k.to_string(), v)).collect())
}

fn show(v: &Json) -> String {
    format!("{v:?}")
}

#[test]
fn normalize_schema_strips_derived_keys_and_collapses_nullable_types() {
    let schema = obj(vec![
        ("$schema", s("http://json-schema.org/draft-07/schema#")),
        ("description", s("Params doc comment")),
        (
            "properties",
            obj(vec![
                (
                    "count",
                    obj(vec![
                        ("default", Json::Null),
                        ("description", s("How many.")),
                        ("format", s("int64")),
                        ("type", Json::Array(vec![s("integer"), s("null")])),
                    ]),
                ),
                (
                    "mode",
                    obj(vec![
                        ("enum", Json::Array(vec![s("fast"), Json::Null, s("slow")])),
                        ("type", Json::Array(vec![s("null"), s("string")])),
                    ]),
                ),
            ]),
        ),
        ("title", s("Params")),
        ("type", s("object")),
    ]);
    let expected = obj(vec![
        (
            "properties",
            obj(vec![
                ("count", obj(vec![("description", s("How many.")), ("type", s("integer"))])),
                ("mode", obj(vec![("enum", Json::Array(vec![s("fast"), s("slow")])), ("type", s("string"))])),
            ]),
        ),
        ("type", s("object")),
    ]);
    assert_eq!(show(&normalize_schema(schema)), show(&expected));
}

#[test]
fn normalize_schema_adds_empty_properties_to_a_root_without_them() {
    let schema = obj(vec![("title", s("Empty")), ("type", s("object"))]);
    let expected = obj(vec![("type", s("object")), ("properties", obj(vec![]))]);
    assert_eq!(show(&normalize_schema(schema)), show(&expected));
}

#[test]
fn type_arrays_other_than_a_nullable_pair_are_kept() {
    let schema = obj(vec![
        ("properties", obj(vec![(
            "x",
            obj(vec![
                ("type", Json::Array(vec![s("null"), s("null")])),
                ("items", Json::Array(vec![obj(vec![("format", s("date"))]), Json::Null])),
            ]),
        )])),
    ]);
    let expected = obj(vec![
        ("properties", obj(vec![(
            "x",
            obj(vec![
                ("type", Json::Array(vec![s("null"), s("null")])),
                ("items", Json::Array(vec![obj(vec![]), Json::Null])),
            ]),
        )])),
    ]);
    assert_eq!(show(&normalize_schema(schema)), show(&expected));
}

#[test]
fn non_object_schemas_are_normalized_below_the_root() {
    let schema = Json::Array(vec![obj(vec![("title", s("kept")), ("default", Json::Bool(true))]), Json::Number("3".into())]);
    let expected = Json::Array(vec![obj(vec![("title", s("kept"))]), Json::Number("3".into())]);
    assert_eq!(show(&normalize_schema(schema)), show(&expected));
}
