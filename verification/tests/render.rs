use eleph_gen_wordpress::json::Json;
use eleph_gen_wordpress::render::{nesting_within, render};

fn object(entries: Vec<(&str, Json)>) -> Json {
    Json::Object(
        entries
            .into_iter()
            .map(|(k, v)| (k.to_string(), v))
            .collect(),
    )
}

#[test]
fn renders_nested_values_as_php_arrays() {
    let v = object(vec![
        ("a", Json::Str("x".to_string())),
        (
            "b",
            Json::Array(vec![
                Json::Bool(true),
                Json::Null,
                Json::Number("3".to_string()),
            ]),
        ),
        ("c", object(vec![])),
    ]);
    assert_eq!(
        render(&v, 0),
        "[\n    'a' => 'x',\n    'b' => [\n        0 => true,\n        1 => null,\n        2 => 3,\n    ],\n    'c' => [],\n]"
    );
}

#[test]
fn renders_scalars_and_empty_containers() {
    assert_eq!(render(&Json::Str("it's".to_string()), 3), "'it\\'s'");
    assert_eq!(render(&Json::Bool(false), 0), "false");
    assert_eq!(render(&Json::Number("-1.5".to_string()), 0), "-1.5");
    assert_eq!(render(&Json::Array(vec![]), 2), "[]");
    assert_eq!(
        render(&object(vec![("k", Json::Null)]), 1),
        "[\n        'k' => null,\n    ]"
    );
}

#[test]
fn nesting_is_measured() {
    let v = object(vec![("a", Json::Array(vec![object(vec![])]))]);
    assert!(nesting_within(&v, 3));
    assert!(!nesting_within(&v, 2));
    assert!(nesting_within(&Json::Null, 0));
}
