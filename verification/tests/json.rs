use embargo::json::{copy_members, position, Json};
use embargo::layering::{add_defaults_to_variant, config_field_names, fill_variant, layer, listed, package_field_names};
use embargo::error::ConfigError;

fn members(items: Vec<(&str, Json)>) -> Vec<(String, Json)> {
    items.into_iter().map(|(name, value)| (name.to_string(), value)).collect()
}

fn text(value: &str) -> Json {
    Json::Text(value.to_string())
}

#[test]
fn text_is_read_into_a_document() {
    let document = Json::from_text(r#"{"b": [1, -2, 2.5, "a", null, true], "a": {"k": []}}"#);
    assert_eq!(
        document,
        Some(Json::Object(members(vec![
            (
                "b",
                Json::Array(vec![
                    Json::Number(serde_json::Number::from(1u64)),
                    Json::Number(serde_json::Number::from(-2i64)),
                    Json::Number(serde_json::Number::from_f64(2.5).unwrap()),
                    text("a"),
                    Json::Null,
                    Json::Bool(true),
                ])
            ),
            ("a", Json::Object(members(vec![("k", Json::Array(vec![]))]))),
        ])))
    );
    assert_eq!(Json::from_text("{,}"), None);
    assert_eq!(Json::from_text("nul"), None);
}

#[test]
fn the_last_of_two_members_of_a_name_is_read() {
    assert_eq!(
        Json::from_text(r#"{"a": 1, "b": 2, "a": 3}"#),
        Some(Json::Object(members(vec![
            ("a", Json::Number(serde_json::Number::from(3u64))),
            ("b", Json::Number(serde_json::Number::from(2u64))),
        ])))
    );
}

#[test]
fn position_is_the_first_member_of_the_name() {
    let list = members(vec![("a", Json::Null), ("b", Json::Bool(true)), ("a", Json::Bool(false))]);
    assert_eq!(position(&list, "a"), 0);
    assert_eq!(position(&list, "b"), 1);
    assert_eq!(position(&list, "c"), 3);
    assert_eq!(position(&Vec::new(), "a"), 0);
}

#[test]
fn copies_are_equal() {
    let list = members(vec![("a", Json::Array(vec![text("x"), Json::Null])), ("b", Json::Bool(true))]);
    assert_eq!(copy_members(&list), list);
    let document = Json::Object(list);
    assert_eq!(document.clone(), document);
}

#[test]
fn names_that_are_listed() {
    assert!(listed(&["package"], "package"));
    assert!(!listed(&["package"], "packages"));
    assert!(!listed(&[], "package"));
    assert!(listed(&["add_toplevel_block", "patch"], "patch"));
    assert_eq!(config_field_names(), ["package"]);
    assert_eq!(package_field_names(), ["add_toplevel_block", "patch"]);
}

#[test]
fn defaults_are_added_where_a_name_is_absent() {
    let mut variant = members(vec![("a", text("own")), ("b", text("own"))]);
    let defaults = members(vec![
        ("b", text("default")),
        ("c", text("default")),
        ("skip", text("default")),
        ("d", Json::Null),
    ]);
    add_defaults_to_variant(&mut variant, &defaults, &["skip"]);
    assert_eq!(
        variant,
        members(vec![
            ("a", text("own")),
            ("b", text("own")),
            ("c", text("default")),
            ("d", Json::Null),
        ])
    );
}

#[test]
fn defaults_of_a_name_are_taken_once() {
    let mut variant = Vec::new();
    let defaults = members(vec![("a", text("first")), ("a", text("second"))]);
    add_defaults_to_variant(&mut variant, &defaults, &[]);
    assert_eq!(variant, members(vec![("a", text("first"))]));
}

#[test]
fn a_variant_is_filled_from_the_top_level() {
    let top = members(vec![
        ("tests", Json::Bool(true)),
        (
            "package",
            Json::Object(members(vec![(
                "p",
                Json::Object(members(vec![("patch", text("p.patch")), ("no_std", Json::Bool(true))])),
            )])),
        ),
    ]);
    let variant = Json::Object(members(vec![("workspace", Json::Bool(true))]));
    assert_eq!(
        fill_variant(&top, &variant, "variants[0]"),
        Ok(Json::Object(members(vec![
            ("workspace", Json::Bool(true)),
            ("tests", Json::Bool(true)),
            (
                "package",
                Json::Object(members(vec![(
                    "p",
                    Json::Object(members(vec![("no_std", Json::Bool(true))]))
                )]))
            ),
        ])))
    );
    assert_eq!(
        fill_variant(&top, &Json::Null, "variants[3]"),
        Err(ConfigError::Malformed("variants[3] is not an object".to_string()))
    );
}

#[test]
fn a_document_is_layered() {
    let document = Json::from_text(
        r#"{
            "variants": [{"package": {"q": {}, "p": {"alloc": true}}}],
            "tests": true,
            "package": {"p": {"alloc": false, "patch": "x", "other": 1}}
        }"#,
    )
    .unwrap();
    let expected = Json::from_text(
        r#"{
            "package": {"p": {"patch": "x"}},
            "variants": [{
                "package": {"q": {}, "p": {"alloc": true, "other": 1}},
                "tests": true
            }]
        }"#,
    )
    .unwrap();
    assert_eq!(layer(&document), Ok(expected));
}
