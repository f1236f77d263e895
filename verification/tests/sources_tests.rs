use sonify_health::sources::{
    AddSourceError, ConnectionStatus, SourceRef, SourceRegistry, LOCAL_SOURCE_NAME,
};

#[test]
fn local_source_is_named_localhost() {
    let reg: SourceRegistry<()> = SourceRegistry::new();
    assert_eq!(LOCAL_SOURCE_NAME, "localhost");
    assert_eq!(reg.source_by_name("localhost"), Some(SourceRef::Local));
    assert_eq!(reg.source_names(), vec!["localhost".to_string()]);
}

#[test]
fn add_remote_source_appends_with_remote_kind() {
    let mut reg: SourceRegistry<u8> = SourceRegistry::new();
    assert_eq!(reg.add_remote_source("r1".to_string(), "ws://a/ws".to_string(), 0), Ok(0));
    assert_eq!(reg.source_by_name("r1"), Some(SourceRef::Remote(0)));
    assert_eq!(reg.remote_count(), 1);
    let r = reg.remote(0);
    assert_eq!(r.status, ConnectionStatus::Connecting);
    assert!(!r.playback_enabled);
}

#[test]
fn add_remote_source_rejects_duplicate_name() {
    let mut reg: SourceRegistry<u8> = SourceRegistry::new();
    reg.add_remote_source("r1".to_string(), "ws://a".to_string(), 0).unwrap();
    assert_eq!(
        reg.add_remote_source("r1".to_string(), "ws://b".to_string(), 0),
        Err(AddSourceError::DuplicateName { name: "r1".to_string() })
    );
    assert!(reg.add_remote_source("localhost".to_string(), "ws://b".to_string(), 0).is_err());
    assert_eq!(reg.remote_count(), 1);
}

#[test]
fn remove_remote_source_drops_from_list_and_clears_alive() {
    let mut reg: SourceRegistry<u8> = SourceRegistry::new();
    reg.add_remote_source("edge-1".to_string(), "ws://edge1.example/ws".to_string(), 7).unwrap();
    assert!(reg.source_by_name("edge-1").is_some());
    assert!(reg.remote(0).is_alive());
    let removed = reg.remove_remote_source("edge-1").unwrap();
    assert_eq!(removed.mirror, 7);
    // Whoever still holds the entry sees that it is no longer alive.
    assert!(!removed.is_alive());
    assert!(reg.source_by_name("edge-1").is_none());
    assert!(reg.remove_remote_source("not-there").is_none());
    assert!(reg.remove_remote_source(LOCAL_SOURCE_NAME).is_none());
}

#[test]
fn playback_toggle_and_configs() {
    let mut reg: SourceRegistry<u8> = SourceRegistry::new();
    reg.add_remote_source("r1".to_string(), "ws://a".to_string(), 0).unwrap();
    assert!(reg.set_remote_playback_enabled("r1", true));
    assert!(!reg.set_remote_playback_enabled("localhost", true));
    let configs = reg.remote_source_configs();
    assert_eq!(configs.len(), 1);
    assert_eq!(configs[0].name, "r1");
    assert_eq!(configs[0].url, "ws://a");
    assert!(configs[0].playback_enabled);
}

#[test]
fn connection_status_wire_names() {
    assert_eq!(ConnectionStatus::Connecting.as_str(), "connecting");
    assert_eq!(ConnectionStatus::Connected.as_str(), "connected");
    let clean = ConnectionStatus::Disconnected { error: None };
    assert_eq!(clean.as_str(), "disconnected");
    assert_eq!(clean.error_message(), None);
    let failed = ConnectionStatus::Disconnected { error: Some("refused".to_string()) };
    assert_eq!(failed.as_str(), "error");
    assert_eq!(failed.error_message(), Some(&"refused".to_string()));
}

#[test]
fn only_enabled_remotes_play() {
    let mut reg: SourceRegistry<u8> = SourceRegistry::new();
    reg.add_remote_source("r1".to_string(), "ws://a".to_string(), 0).unwrap();
    assert!(reg.should_play(SourceRef::Local));
    assert!(!reg.should_play(SourceRef::Remote(0)));
    reg.set_remote_playback_enabled("r1", true);
    assert!(reg.should_play(SourceRef::Remote(0)));
}

#[test]
fn status_and_mirror_updates() {
    let mut reg: SourceRegistry<Vec<u8>> = SourceRegistry::new();
    reg.add_remote_source("r1".to_string(), "ws://a".to_string(), vec![]).unwrap();
    reg.set_status(0, ConnectionStatus::Connected);
    assert_eq!(reg.remote(0).status, ConnectionStatus::Connected);
    reg.mirror_mut(0).push(9);
    assert_eq!(reg.remote(0).mirror, vec![9]);
    assert_eq!(reg.remote(0).name, "r1");
}
