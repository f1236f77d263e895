use sonify_health::print_format::{flag_name, format_cli, join, patch_nix_lines, patch_toml_lines};

fn params() -> Vec<(String, String)> {
    vec![
        ("freq".to_string(), "440".to_string()),
        ("sine_ratio".to_string(), "0.5".to_string()),
    ]
}

#[test]
fn flags_use_hyphens() {
    assert_eq!(flag_name("sine_ratio"), "sine-ratio");
    assert_eq!(flag_name("freq"), "freq");
    assert_eq!(format_cli(&params()), "--freq 440 --sine-ratio 0.5");
    assert_eq!(format_cli(&vec![]), "");
}

#[test]
fn toml_table_lines() {
    let mut lines = vec!["# head".to_string()];
    patch_toml_lines(&mut lines, "patch", &params());
    assert_eq!(lines, vec!["# head", "[patch]", "freq = 440.0", "sine_ratio = 0.5"]);
}

#[test]
fn nix_attribute_set_lines() {
    let mut lines = Vec::new();
    patch_nix_lines(&mut lines, "profiles.cpu.lo", &params());
    assert_eq!(
        join(&lines, "\n"),
        "profiles.cpu.lo = {\n  freq = 440.0;\n  sine_ratio = 0.5;\n};"
    );
}

#[test]
fn join_single_and_empty() {
    assert_eq!(join(&vec!["a".to_string()], ", "), "a");
    assert_eq!(join(&vec![], ", "), "");
    assert_eq!(join(&vec!["a".to_string(), "b".to_string()], ", "), "a, b");
}
