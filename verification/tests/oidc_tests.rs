use sonify_health::oidc::{resolve_oidc, resolve_oidc_with_base_url, OidcSectionRaw};

fn s(v: &str) -> Option<String> {
    Some(v.to_string())
}

#[test]
fn no_oidc_settings_means_no_oidc() {
    assert_eq!(resolve_oidc(None, None, None, None, None), Ok(None));
    assert_eq!(resolve_oidc_with_base_url(None, None, None, None, None, None), Ok(None));
}

#[test]
fn complete_settings_resolve() {
    let q = resolve_oidc(s("https://issuer"), s("client"), s("/run/secret"), None, None).unwrap().unwrap();
    assert_eq!(q.issuer, "https://issuer");
    assert_eq!(q.client_id, "client");
    assert_eq!(q.secret_file, "/run/secret");
    assert_eq!(q.base_url, None);
    let c = q.into_config("hunter2".to_string(), "http://localhost:3000".to_string());
    assert_eq!(c.base_url, "http://localhost:3000");
    assert_eq!(c.client_secret, "hunter2");
}

#[test]
fn command_line_wins_over_file() {
    let file = OidcSectionRaw {
        base_url: s("https://file-base"),
        issuer: s("https://file-issuer"),
        client_id: s("file-client"),
        client_secret_file: s("/file/secret"),
    };
    let q = resolve_oidc_with_base_url(None, s("https://cli-issuer"), None, None, Some(file), None)
        .unwrap()
        .unwrap();
    assert_eq!(q.issuer, "https://cli-issuer");
    assert_eq!(q.client_id, "file-client");
    assert_eq!(q.secret_file, "/file/secret");
    assert_eq!(q.base_url, s("https://file-base"));
}

#[test]
fn credential_stands_in_for_secret_file() {
    let q = resolve_oidc(s("i"), s("c"), None, None, s("/creds/oidc-client-secret")).unwrap().unwrap();
    assert_eq!(q.secret_file, "/creds/oidc-client-secret");
}

#[test]
fn missing_secret_is_reported() {
    let err = resolve_oidc(s("i"), s("c"), None, None, None).unwrap_err();
    assert_eq!(
        err.message,
        "oidc_client_secret_file is required when oidc_issuer and oidc_client_id are set (set it explicitly or run under systemd with LoadCredential)"
    );
}

#[test]
fn partial_settings_are_reported() {
    let err = resolve_oidc(s("i"), None, None, None, None).unwrap_err();
    assert_eq!(
        err.message,
        "partial OIDC configuration: set all three fields or none. present: [oidc_issuer], missing: [oidc_client_id, oidc_client_secret_file]"
    );
    let err = resolve_oidc_with_base_url(s("b"), None, None, None, None, None).unwrap_err();
    assert_eq!(
        err.message,
        "partial OIDC configuration: set all four fields or none. present: [base_url], missing: [oidc_issuer, oidc_client_id, oidc_client_secret_file]"
    );
}
