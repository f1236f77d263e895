use sonify_health::config::{parse_source_arg, resolve_remote_sources, validate_remote_sources};
use sonify_health::sources::RemoteSourceConfig;

fn source(name: &str, url: &str) -> RemoteSourceConfig {
    RemoteSourceConfig { name: name.to_string(), url: url.to_string(), playback_enabled: false }
}

#[test]
fn cli_source_flag_appends_remote_source() {
    let merged = resolve_remote_sources(vec![], &vec!["prod-db-1=ws://db1/ws".to_string()]).unwrap();
    assert_eq!(merged.len(), 1);
    assert_eq!(merged[0].name, "prod-db-1");
    assert_eq!(merged[0].url, "ws://db1/ws");
    assert!(!merged[0].playback_enabled);
}

#[test]
fn cli_source_flag_rejects_missing_equals() {
    let err = parse_source_arg("malformed").unwrap_err();
    assert_eq!(err.message, "--source argument \"malformed\" must be of the form name=url");
    assert!(err.message.contains("name=url"));
}

#[test]
fn cli_source_flag_rejects_empty_side() {
    let err = parse_source_arg("=ws://x").unwrap_err();
    assert_eq!(err.message, "--source argument \"=ws://x\" has empty name or url");
    assert!(parse_source_arg("name=").is_err());
}

#[test]
fn remote_source_named_localhost_is_rejected() {
    let err = resolve_remote_sources(vec![], &vec!["localhost=ws://elsewhere/ws".to_string()]).unwrap_err();
    assert_eq!(err.message, "remote source name \"localhost\" is reserved for the Local Source");
}

#[test]
fn remote_source_duplicate_name_is_rejected() {
    let err = resolve_remote_sources(
        vec![],
        &vec!["dup=ws://a/ws".to_string(), "dup=ws://b/ws".to_string()],
    )
    .unwrap_err();
    assert_eq!(err.message, "remote source name \"dup\" is declared more than once");
}

#[test]
fn cli_source_url_with_equals_survives_split() {
    let merged = resolve_remote_sources(vec![], &vec!["q=ws://host/ws?token=abc".to_string()]).unwrap();
    assert_eq!(merged.len(), 1);
    assert_eq!(merged[0].name, "q");
    assert_eq!(merged[0].url, "ws://host/ws?token=abc");
}

#[test]
fn cli_and_file_sources_are_merged_and_validated_together() {
    let merged = resolve_remote_sources(
        vec![source("a", "ws://a")],
        &vec!["b=ws://b".to_string()],
    )
    .unwrap();
    assert_eq!(merged.iter().map(|s| s.name.as_str()).collect::<Vec<_>>(), vec!["a", "b"]);
    assert!(resolve_remote_sources(vec![source("a", "ws://a")], &vec!["a=ws://b".to_string()]).is_err());
}

#[test]
fn file_sources_are_validated() {
    assert!(validate_remote_sources(&vec![source("a", "x"), source("b", "y")]).is_ok());
    assert!(validate_remote_sources(&vec![source("localhost", "x")]).is_err());
}
