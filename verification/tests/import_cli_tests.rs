use dnsmesh_app::import_cli::{
    check_cli_config, cli_identity_config, cli_import_name, cli_publish, kdf_salt_to_base64,
    rewrite_publish, CliConfigFile, CliPublishConfig,
};
use dnsmesh_app::index::check_no_collision;
use dnsmesh_app::state::{IdentityIndex, IdentityIndexEntry};

fn index_with(name: &str, domain: &str) -> IdentityIndex {
    let mut idx = IdentityIndex::default();
    idx.identities.push(IdentityIndexEntry { username: name.into(), domain: domain.into() });
    idx
}

fn cli_publish_block() -> CliPublishConfig {
    CliPublishConfig {
        zone: "dmp.example.com".into(),
        server: "192.0.2.1:53".into(),
        tsig_key_name: "cli-key".into(),
        tsig_algorithm: "hmac-sha256".into(),
        tsig_secret_path: "/home/u/.dmp/tsig.key".into(),
    }
}

#[test]
fn import_cli_import_collision_errors_without_override() {
    let idx = index_with("alice", "old.local");
    let name = cli_import_name(None, "alice").unwrap();
    let err = check_no_collision(&idx, &name).unwrap_err();
    assert_eq!(err.kind, "validation");
    assert!(err.message.contains("already exists"), "got {err:?}");
}

#[test]
fn import_collision_succeeds_with_override() {
    let idx = index_with("alice", "old.local");
    let name = cli_import_name(Some("alice2"), "alice").unwrap();
    assert_eq!(name, "alice2");
    assert!(check_no_collision(&idx, &name).is_ok());
}

#[test]
fn import_preserves_kdf_salt_as_base64() {
    let b64 = kdf_salt_to_base64(Some("0011223344556677")).unwrap();
    assert_eq!(b64.as_deref(), Some("ABEiM0RVZnc="), "kdf_salt should have been re-encoded");
    assert!(kdf_salt_to_base64(Some("   ")).unwrap().is_none());
    assert!(kdf_salt_to_base64(None).unwrap().is_none());
    assert_eq!(
        kdf_salt_to_base64(Some("0011")).unwrap_err().message,
        "imported config.yaml's kdf_salt decodes to 2 bytes; need at least 8"
    );
    assert!(kdf_salt_to_base64(Some("zz")).unwrap_err().message.starts_with("imported config.yaml has invalid kdf_salt hex: "));
}

#[test]
fn import_copies_tsig_and_rewrites_publish_path() {
    let p = cli_publish(Some(cli_publish_block()), true, "/r/alice/tsig.key".into(), "/src/tsig.key").unwrap().unwrap();
    assert_eq!(p.tsig_secret_path, "/r/alice/tsig.key");
    assert_eq!(p.tsig_key_name, "cli-key");
    assert_eq!(p.zone, "dmp.example.com");
    let q = rewrite_publish(cli_publish_block(), "/x".into());
    assert_eq!(q.tsig_secret_path, "/x");
}

#[test]
fn import_rejects_publish_without_tsig_file() {
    let err = cli_publish(Some(cli_publish_block()), false, "/r/a/tsig.key".into(), "/src/tsig.key").unwrap_err();
    assert_eq!(err.kind, "validation");
    assert_eq!(err.message, "config.yaml has a publish block but no tsig.key was found at /src/tsig.key");
    assert!(cli_publish(None, false, "/x".into(), "/y").unwrap().is_none());
}

#[test]
fn cli_config_needs_username_and_domain() {
    let mut cli = CliConfigFile {
        username: "alice".into(),
        domain: " ".into(),
        resolvers: Some(vec!["1.1.1.1".into()]),
        publish: None,
        kdf_salt: None,
    };
    assert_eq!(check_cli_config(&cli).unwrap_err().message, "imported config.yaml has empty `domain`");
    cli.domain = "mesh.local".into();
    assert!(check_cli_config(&cli).is_ok());
    cli.username = "".into();
    assert_eq!(check_cli_config(&cli).unwrap_err().message, "imported config.yaml has empty `username`");
    let cfg = cli_identity_config(Some(vec!["1.1.1.1".into()]), None, None);
    assert_eq!(cfg.resolvers.unwrap(), vec!["1.1.1.1".to_string()]);
    assert!(cfg.claim_via.is_none());
}
