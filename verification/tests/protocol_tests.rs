use sonify_health::protocol::{export_format, import_format, parse_request, ClientRequest, ExportFormat, ImportFormat};

#[test]
fn known_requests_are_recognised() {
    assert_eq!(parse_request("get_state"), Some(ClientRequest::GetState));
    assert_eq!(parse_request("set_patch_param_and_play"), Some(ClientRequest::SetPatchParamAndPlay));
    assert_eq!(parse_request("reset_override_param"), Some(ClientRequest::ResetOverrideParam));
    assert_eq!(parse_request("create_heartbeat"), Some(ClientRequest::CreateHeartbeat));
    assert_eq!(parse_request("set_repeat_rate"), Some(ClientRequest::SetRepeatRate));
}

#[test]
fn unknown_requests_are_ignored() {
    assert_eq!(parse_request("drop_tables"), None);
    assert_eq!(parse_request(""), None);
    assert_eq!(parse_request("GET_STATE"), None);
}

#[test]
fn export_format_defaults_to_toml() {
    assert_eq!(export_format(Some("json")), ExportFormat::Json);
    assert_eq!(export_format(Some("nix")), ExportFormat::Nix);
    assert_eq!(export_format(Some("yaml")), ExportFormat::Toml);
    assert_eq!(export_format(None), ExportFormat::Toml);
}

#[test]
fn import_format_follows_first_character() {
    assert_eq!(import_format("  \n {\"a\": {}}"), ImportFormat::Json);
    assert_eq!(import_format("[bell]\nfreq = 1.0"), ImportFormat::Toml);
    assert_eq!(import_format(""), ImportFormat::Toml);
    assert_eq!(import_format("   "), ImportFormat::Toml);
}

#[test]
fn white_space_matches_unicode() {
    for u in 0u32..0x3100 {
        if let Some(c) = char::from_u32(u) {
            if c == '{' {
                continue;
            }
            let text = format!("{c}{{}}");
            let expected = if c.is_whitespace() { ImportFormat::Json } else { ImportFormat::Toml };
            assert_eq!(import_format(&text), expected, "U+{u:04X}");
        }
    }
}
