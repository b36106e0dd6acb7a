use dnsmesh_app::backup::{
    archive_entry_path, check_meta_version, ensure_archive_suffix, ensure_safe_relative,
    export_domain, export_entries, import_names, plan_entry, rewrite_imported_publish,
    with_tmp_suffix, EntryAction,
};
use dnsmesh_app::index::{add_imported, check_no_collision};
use dnsmesh_app::state::{IdentityConfig, IdentityIndex, IdentityIndexEntry, PublishConfig};

fn index_with(names: &[(&str, &str)]) -> IdentityIndex {
    let mut idx = IdentityIndex::default();
    for (u, d) in names {
        idx.identities.push(IdentityIndexEntry { username: u.to_string(), domain: d.to_string() });
    }
    idx
}

#[test]
fn ensure_safe_relative_rejects_traversal() {
    assert!(ensure_safe_relative("ok").is_ok());
    assert!(ensure_safe_relative("a/b").is_ok());
    assert!(ensure_safe_relative("../escape").is_err());
    assert!(ensure_safe_relative("/abs").is_err());
    assert!(ensure_safe_relative("").is_err());
}

#[test]
fn ensure_safe_relative_follows_path_components() {
    assert!(ensure_safe_relative("a/./b").is_ok());
    assert!(ensure_safe_relative("a//b/").is_ok());
    assert!(ensure_safe_relative("./a").is_err());
    assert!(ensure_safe_relative("a/../b").is_err());
    assert_eq!(
        ensure_safe_relative("x/..").unwrap_err().message,
        "archive path `x/..` contains an unsafe component"
    );
    assert_eq!(ensure_safe_relative("").unwrap_err().message, "archive contains an empty path suffix");
}

#[test]
fn ensure_archive_suffix_idempotent() {
    let p = "/tmp/alice".to_string();
    let a = ensure_archive_suffix(p.clone());
    assert!(a.ends_with(".dmp-backup.tar.gz"));
    let b = ensure_archive_suffix(a.clone());
    assert_eq!(a, b);
}

#[test]
fn ensure_archive_suffix_ignores_case() {
    assert_eq!(ensure_archive_suffix("x.DMP-Backup.TAR.GZ".into()), "x.DMP-Backup.TAR.GZ");
    assert_eq!(ensure_archive_suffix("x.tar.gz".into()), "x.tar.gz.dmp-backup.tar.gz");
}

#[test]
fn entry_and_tmp_names() {
    assert_eq!(archive_entry_path("alice", "config.yaml"), "identities/alice/config.yaml");
    assert_eq!(with_tmp_suffix("/o/a.dmp-backup.tar.gz"), "/o/a.dmp-backup.tar.gz.tmp");
}

#[test]
fn export_lists_required_then_present_optional_files() {
    let e = export_entries("alice", true, false, true);
    let names: Vec<&str> = e.iter().map(|(n, _)| n.as_str()).collect();
    assert_eq!(
        names,
        vec![
            "identities/alice/config.yaml",
            "identities/alice/dmp-rs.sqlite",
            "identities/alice/tsig.key",
            "identities/alice/inbox-read.json",
        ]
    );
    // 1 meta + 1 cfg + 1 sqlite + 1 tsig + 1 inbox + 1 read = 6.
    assert_eq!(export_entries("alice", true, true, true).len() + 1, 6);
}

#[test]
fn export_needs_the_identity_in_the_index() {
    let idx = index_with(&[("alice", "mesh.local")]);
    assert_eq!(export_domain(&idx, "alice").unwrap(), "mesh.local");
    let e = export_domain(&idx, "bob").unwrap_err();
    assert_eq!(e.message, "identity `bob` is not in the index");
}

#[test]
fn import_rejects_unsupported_meta_version() {
    assert!(check_meta_version(1).is_ok());
    let err = check_meta_version(999).unwrap_err();
    assert_eq!(err.kind, "validation");
    assert!(err.message.contains("version"), "got {err:?}");
}

#[test]
fn backup_import_collision_errors_without_override() {
    let idx = index_with(&[("alice", "mesh.local")]);
    let (final_name, _) = import_names(None, "alice").unwrap();
    let err = check_no_collision(&idx, &final_name).unwrap_err();
    assert_eq!(err.kind, "validation");
    assert!(err.message.contains("already exists"), "got {err:?}");
}

#[test]
fn override_names_the_import_and_archived_name_is_checked() {
    assert_eq!(import_names(Some(" alice2 "), "alice").unwrap(), ("alice2".to_string(), "alice".to_string()));
    assert_eq!(import_names(Some("  "), " alice ").unwrap().0, "alice");
    assert!(import_names(Some("alice2"), "../evil").is_err());
    assert_eq!(import_names(Some("alice2"), "  ").unwrap_err().message, "backup-meta.username is empty");
}

#[test]
fn entries_are_planned_under_the_new_name() {
    match plan_entry("identities/alice/tsig.key", "alice", "alice2").unwrap() {
        EntryAction::Extract { suffix, dest_rel, is_tsig } => {
            assert_eq!(suffix, "tsig.key");
            assert_eq!(dest_rel, "alice2/tsig.key");
            assert!(is_tsig);
        }
        EntryAction::Skip => panic!("expected an extraction"),
    }
    assert!(matches!(plan_entry("backup-meta.json", "alice", "b").unwrap(), EntryAction::Skip));
    assert_eq!(
        plan_entry("identities/bob/x", "alice", "b").unwrap_err().message,
        "unexpected archive entry: identities/bob/x"
    );
    assert!(plan_entry("identities/alice/../x", "alice", "b").is_err());
}

#[test]
fn override_rewrites_publish_secret_path() {
    let mut cfg = IdentityConfig::default();
    cfg.publish = Some(PublishConfig {
        zone: "dmp.example.com".into(),
        server: "192.0.2.1:53".into(),
        tsig_key_name: "key1".into(),
        tsig_algorithm: "hmac-sha256".into(),
        tsig_secret_path: "/old/alice/tsig.key".into(),
    });
    let mut no_secret = cfg.clone();
    assert!(rewrite_imported_publish(&mut no_secret, false, "x".into()).is_err());
    rewrite_imported_publish(&mut cfg, true, "/root/alice2/tsig.key".into()).unwrap();
    assert_eq!(cfg.publish.unwrap().tsig_secret_path, "/root/alice2/tsig.key");
    let mut idx = index_with(&[("alice", "old.local")]);
    add_imported(&mut idx, "alice2".into(), "mesh.local".into());
    assert!(idx.active.is_none());
    assert_eq!(idx.identities[1].username, "alice2");
}
