use simse::config::{default_server_port, default_smtp_timeout, serde_true, StorageKind};

#[test]
fn configuration_defaults() {
    assert!(serde_true());
    assert_eq!(default_server_port(), 9005);
    assert_eq!(default_smtp_timeout(), 3000);
    match StorageKind::default() {
        StorageKind::Local { path } => assert_eq!(path, "storage.db"),
        other => panic!("unexpected storage {:?}", other),
    }
}
