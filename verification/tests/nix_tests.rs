use sonify_health::nix::{float_literal, nix_attr, nix_body, nix_escape, nix_value, ExportValue};

#[test]
fn escapes_quotes_backslashes_and_interpolation() {
    assert_eq!(nix_escape("a\"b\\c${x}$y"), "a\\\"b\\\\c\\${x}$y");
    assert_eq!(nix_escape("plain"), "plain");
}

#[test]
fn attribute_names_are_quoted_when_needed() {
    assert_eq!(nix_attr("foo-bar_1'"), "foo-bar_1'");
    assert_eq!(nix_attr("_x"), "_x");
    assert_eq!(nix_attr("1st"), "\"1st\"");
    assert_eq!(nix_attr("a b"), "\"a b\"");
    assert_eq!(nix_attr(""), "\"\"");
}

#[test]
fn floats_keep_a_decimal_point() {
    assert_eq!(float_literal("5"), "5.0");
    assert_eq!(float_literal("0.5"), "0.5");
    assert_eq!(float_literal("1e10"), "1e10");
    assert_eq!(float_literal("-3"), "-3.0");
}

#[test]
fn scalars_and_empty_collections() {
    assert_eq!(nix_value(&ExportValue::Null, 0), "null");
    assert_eq!(nix_value(&ExportValue::Bool(true), 3), "true");
    assert_eq!(nix_value(&ExportValue::Number("440".to_string()), 0), "440.0");
    assert_eq!(nix_value(&ExportValue::Text("say \"hi\"".to_string()), 0), "\"say \\\"hi\\\"\"");
    assert_eq!(nix_value(&ExportValue::Array(vec![]), 1), "[ ]");
    assert_eq!(nix_value(&ExportValue::Object(vec![]), 1), "{ }");
}

#[test]
fn body_renders_nested_config() {
    let doc = ExportValue::Object(vec![
        (
            "patches".to_string(),
            ExportValue::Object(vec![(
                "my-bell".to_string(),
                ExportValue::Object(vec![
                    ("overrides".to_string(), ExportValue::Text("bell".to_string())),
                    ("freq".to_string(), ExportValue::Number("440".to_string())),
                ]),
            )]),
        ),
        (
            "sources".to_string(),
            ExportValue::Array(vec![ExportValue::Object(vec![
                ("name".to_string(), ExportValue::Text("r1".to_string())),
                ("playback_enabled".to_string(), ExportValue::Bool(false)),
            ])]),
        ),
        ("empty".to_string(), ExportValue::Array(vec![])),
        ("1st".to_string(), ExportValue::Null),
    ]);
    assert_eq!(
        nix_body(&doc),
        "patches = {\n  my-bell = {\n    overrides = \"bell\";\n    freq = 440.0;\n  };\n};\nsources = [\n  {\n    name = \"r1\";\n    playback_enabled = false;\n  }\n];\nempty = [ ];\n\"1st\" = null;"
    );
}
