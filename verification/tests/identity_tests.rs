use dnsmesh_app::identity::{
    check_passphrase, config_view, default_prekey_count, default_tsig_algo, ensure_kdf_salt,
    materialise_publish_block, published_status, require_publish, self_address, summaries,
    updated_config, IdentityLookup, PublishConfigInput, PublishedStatus,
};
use dnsmesh_app::index::{clear_active, register_active, resolve_domain};
use dnsmesh_app::state::{IdentityConfig, IdentityIndex, IdentityIndexEntry};

fn dummy_index_entry(idx: &mut IdentityIndex, username: &str, domain: &str) {
    idx.identities.push(IdentityIndexEntry { username: username.to_string(), domain: domain.to_string() });
}

#[test]
fn list_identities_uses_on_disk_index() {
    let mut idx = IdentityIndex::default();
    dummy_index_entry(&mut idx, "alice", "mesh.local");
    dummy_index_entry(&mut idx, "bob", "mesh.local");
    idx.active = Some("bob".into());
    assert_eq!(idx.identities.len(), 2);
    assert_eq!(idx.active.as_deref(), Some("bob"));
}

#[test]
fn lock_clears_index_active_flag() {
    let mut idx = IdentityIndex::default();
    dummy_index_entry(&mut idx, "alice", "mesh.local");
    idx.active = Some("alice".into());
    assert!(clear_active(&mut idx));
    let rows = summaries(&idx, idx.active.as_deref());
    assert!(rows.iter().all(|s| !s.is_active));
    assert!(!clear_active(&mut idx));
}

#[test]
fn summaries_flag_only_the_unlocked_identity() {
    let mut idx = IdentityIndex::default();
    dummy_index_entry(&mut idx, "alice", "a.local");
    dummy_index_entry(&mut idx, "bob", "b.local");
    let rows = summaries(&idx, Some("bob"));
    assert!(!rows[0].is_active);
    assert!(rows[1].is_active);
    assert_eq!(rows[1].domain, "b.local");
}

#[test]
fn register_is_idempotent_and_sets_active() {
    let mut idx = IdentityIndex::default();
    register_active(&mut idx, "alice".into(), "mesh.local".into());
    register_active(&mut idx, "alice".into(), "other".into());
    assert_eq!(idx.identities.len(), 1);
    assert_eq!(idx.identities[0].domain, "mesh.local");
    assert_eq!(idx.active.as_deref(), Some("alice"));
}

#[test]
fn domain_resolution_rules() {
    let mut idx = IdentityIndex::default();
    dummy_index_entry(&mut idx, "alice", "mesh.local");
    assert_eq!(resolve_domain(&idx, "alice", None).unwrap(), "mesh.local");
    assert_eq!(resolve_domain(&idx, "alice", Some(" mesh.local ")).unwrap(), "mesh.local");
    assert_eq!(
        resolve_domain(&idx, "alice", Some("x")).unwrap_err().message,
        "identity alice is registered under domain mesh.local but x was supplied"
    );
    assert_eq!(resolve_domain(&idx, "bob", Some(" new.zone ")).unwrap(), "new.zone");
    assert_eq!(
        resolve_domain(&idx, "bob", Some(" ")).unwrap_err().message,
        "domain is required to create a new identity"
    );
    assert!(resolve_domain(&idx, "bob", None).is_err());
}

#[test]
fn published_status_follows_the_lookup() {
    assert!(matches!(published_status(IdentityLookup::Found), PublishedStatus::Published));
    assert!(matches!(published_status(IdentityLookup::NoRecord), PublishedStatus::NotPublished));
    match published_status(IdentityLookup::Failed("transport timeout".into())) {
        PublishedStatus::Unknown { reason } => assert_eq!(reason, "transport timeout"),
        _ => panic!("expected unknown"),
    }
}

#[test]
fn kdf_salt_is_minted_once_and_then_read_back() {
    let mut cfg = IdentityConfig::default();
    let first = ensure_kdf_salt(&mut cfg, "alice", false, b"sdk-default-salt").unwrap();
    assert!(first.save);
    assert_eq!(first.salt.len(), 32);
    let again = ensure_kdf_salt(&mut cfg, "alice", false, b"sdk-default-salt").unwrap();
    assert!(!again.save);
    assert_eq!(again.salt, first.salt);
    let mut legacy = IdentityConfig::default();
    let pinned = ensure_kdf_salt(&mut legacy, "bob", true, b"sdk-default-salt").unwrap();
    assert_eq!(pinned.salt, b"sdk-default-salt".to_vec());
    let mut short = IdentityConfig::default();
    short.kdf_salt_base64 = Some("AAEC".into());
    assert_eq!(
        ensure_kdf_salt(&mut short, "carol", false, b"").unwrap_err().message,
        "kdf_salt_base64 in carol/config.yaml decodes to 3 bytes; need at least 8"
    );
    let mut bad = IdentityConfig::default();
    bad.kdf_salt_base64 = Some("!!".into());
    assert_eq!(ensure_kdf_salt(&mut bad, "dave", false, b"").unwrap_err().kind, "io");
}

fn input(path: &str, b64: Option<&str>) -> PublishConfigInput {
    PublishConfigInput {
        zone: "z".into(),
        server: "s:53".into(),
        tsig_key_name: "k".into(),
        tsig_algorithm: default_tsig_algo(),
        tsig_secret_path: path.into(),
        tsig_secret_base64: b64.map(str::to_string),
    }
}

#[test]
fn publish_block_materialisation() {
    let m = materialise_publish_block("/r/alice", input(" /etc/tsig ", None)).unwrap();
    assert_eq!(m.publish.tsig_secret_path, "/etc/tsig");
    assert!(m.secret_file.is_none());
    let m = materialise_publish_block("/r/alice", input("", Some(" c2VjcmV0 "))).unwrap();
    assert_eq!(m.publish.tsig_secret_path, "/r/alice/tsig.key");
    assert_eq!(m.secret_file.unwrap(), ("/r/alice/tsig.key".to_string(), "base64:c2VjcmV0".to_string()));
    assert_eq!(
        materialise_publish_block("/r/alice", input(" ", Some(" "))).unwrap_err().message,
        "publish.tsig_secret_path or publish.tsig_secret_base64 must be set"
    );
    assert!(materialise_publish_block("/r/alice", input("", Some("***")))
        .unwrap_err()
        .message
        .starts_with("tsig_secret_base64 is not valid base64: "));
}

#[test]
fn settings_update_keeps_the_salt_and_views_the_config() {
    let mut prior = IdentityConfig::default();
    prior.kdf_salt_base64 = Some("c2FsdHNhbHQ=".into());
    prior.claim_via = Some(vec!["claims.example.com".into()]);
    let cfg = updated_config(prior, Some(vec!["1.1.1.1".into()]), None);
    assert_eq!(cfg.kdf_salt_base64.as_deref(), Some("c2FsdHNhbHQ="));
    assert_eq!(cfg.claim_via.unwrap(), vec!["claims.example.com".to_string()]);
    let view = config_view("alice".into(), IdentityConfig::default());
    assert!(view.publish.is_none());
    assert!(view.resolvers.is_empty());
}

#[test]
fn command_preconditions() {
    assert_eq!(default_prekey_count(), 50);
    assert!(check_passphrase("").is_err());
    assert!(check_passphrase("p").is_ok());
    assert_eq!(require_publish(false).unwrap_err().kind, "publish_unconfigured");
    assert!(require_publish(true).is_ok());
    assert_eq!(self_address("alice", "mesh.local"), "alice@mesh.local");
}
