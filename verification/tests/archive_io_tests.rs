use dnsmesh_app::backup::{archive_entries, export_archive, meta_entry, plan_import};
use dnsmesh_app::tarball::TarFault;
use dnsmesh_app::state::{IdentityIndex, IdentityIndexEntry};

fn files_of(user: &str) -> Vec<(String, Vec<u8>, u64)> {
    vec![
        (format!("identities/{user}/config.yaml"), b"resolvers: []\n".to_vec(), 1_700_000_000),
        (format!("identities/{user}/dmp-rs.sqlite"), vec![0u8, 1, 2, 3, 255], 1_700_000_001),
        (format!("identities/{user}/tsig.key"), b"base64:c2VjcmV0".to_vec(), 1_700_000_002),
    ]
}

#[test]
fn export_archive_reads_back_meta_first_then_files() {
    let meta = br#"{"version":1}"#.to_vec();
    let (bytes, count) = export_archive(meta.clone(), 1_700_000_100, files_of("alice")).unwrap();
    assert_eq!(count, 4);
    let (entries, fault) = archive_entries(&bytes);
    assert!(fault.is_none());
    assert_eq!(entries.len(), 4);
    assert_eq!(entries[0], ("backup-meta.json".to_string(), meta.clone()));
    for (k, (name, data, _)) in files_of("alice").into_iter().enumerate() {
        assert_eq!(entries[k + 1], (name, data));
    }
    assert_eq!(meta_entry(&entries, &None).unwrap(), meta);
}

#[test]
fn export_archive_keeps_long_names() {
    let long = format!("identities/{}/config.yaml", "u".repeat(64));
    let files = vec![(long.clone(), b"x".to_vec(), 0)];
    let (bytes, _) = export_archive(b"{}".to_vec(), 0, files).unwrap();
    let (entries, fault) = archive_entries(&bytes);
    assert!(fault.is_none());
    assert_eq!(entries[1].0, long);
}

#[test]
fn export_archive_refuses_unsafe_names() {
    for bad in ["../x", "/abs", "a//b", "a/./b", "", "a/", "a\0b"] {
        let err = export_archive(b"{}".to_vec(), 0, vec![(bad.to_string(), vec![], 0)]).unwrap_err();
        assert_eq!(err.kind, "io", "{bad:?}");
        assert!(err.message.contains("not a plain relative path"), "{bad:?}");
    }
}

#[test]
fn damaged_archive_reports_a_fault() {
    let (entries, fault) = archive_entries(b"definitely not gzip");
    assert!(entries.is_empty());
    assert!(fault.is_some());
    let err = meta_entry(&entries, &fault).unwrap_err();
    assert_eq!(err.kind, "io");
    assert!(
        err.message.starts_with("reading entry failed: ") || err.message.starts_with("opening archive failed: "),
        "{}",
        err.message
    );
}

#[test]
fn truncated_archive_keeps_the_entries_read_before_the_fault() {
    let (bytes, _) = export_archive(b"{}".to_vec(), 0, files_of("alice")).unwrap();
    let (entries, fault) = archive_entries(&bytes[..bytes.len() / 2]);
    assert!(fault.is_some());
    let expected = read_back("alice");
    assert!(entries.len() <= expected.len());
    for (k, e) in entries.iter().enumerate() {
        assert_eq!(e, &expected[k]);
    }
}

#[test]
fn archive_without_meta_is_refused() {
    let entries = vec![("identities/a/config.yaml".to_string(), vec![])];
    let err = meta_entry(&entries, &None).unwrap_err();
    assert_eq!(err.kind, "validation");
    assert_eq!(err.message, "archive is missing backup-meta.json — not a DMP backup");
}

fn read_back(user: &str) -> Vec<(String, Vec<u8>)> {
    let (bytes, _) = export_archive(b"{}".to_vec(), 0, files_of(user)).unwrap();
    let (entries, fault) = archive_entries(&bytes);
    assert!(fault.is_none());
    entries
}

#[test]
fn plan_import_maps_entries_under_the_final_name() {
    let entries = read_back("alice");
    let plan = plan_import(&entries, &None, 1, "alice", Some("carol"), &IdentityIndex::default()).unwrap();
    assert_eq!(plan.final_username, "carol");
    assert_eq!(plan.original_username, "alice");
    assert_eq!(plan.files.len(), 3);
    assert_eq!(plan.files[0], ("carol/config.yaml".to_string(), b"resolvers: []\n".to_vec(), false));
    assert_eq!(plan.files[1].0, "carol/dmp-rs.sqlite");
    assert_eq!(plan.files[2], ("carol/tsig.key".to_string(), b"base64:c2VjcmV0".to_vec(), true));
    assert!(plan.secret_imported);
}

#[test]
fn plan_import_refusals_come_in_order() {
    let entries = read_back("alice");
    let mut idx = IdentityIndex::default();
    idx.identities.push(IdentityIndexEntry { username: "alice".into(), domain: "d.example".into() });
    let err = plan_import(&entries, &None, 2, "alice", None, &idx).unwrap_err();
    assert_eq!(err.message, "backup-meta.version 2 is not supported (this build expects 1)");
    let err = plan_import(&entries, &None, 1, "../x", None, &idx).unwrap_err();
    assert_eq!(err.kind, "validation");
    let err = plan_import(&entries, &None, 1, "alice", None, &idx).unwrap_err();
    assert!(err.message.contains("already exists"), "{}", err.message);
    let mut bad = entries.clone();
    bad.push(("identities/mallory/x".to_string(), vec![]));
    let err = plan_import(&bad, &None, 1, "alice", Some("bob"), &idx).unwrap_err();
    assert_eq!(err.message, "unexpected archive entry: identities/mallory/x");
}

#[test]
fn faults_are_reported_in_the_original_order() {
    let entries = read_back("alice");
    let idx = IdentityIndex::default();
    let late = Some(TarFault::Content { path: "identities/alice/tsig.key".into(), text: "boom".into() });
    // A bad version is reported before a fault met later in the archive.
    let err = plan_import(&entries, &late, 2, "alice", None, &idx).unwrap_err();
    assert_eq!(err.message, "backup-meta.version 2 is not supported (this build expects 1)");
    // Otherwise the extraction pass meets the fault.
    let err = plan_import(&entries, &late, 1, "alice", None, &idx).unwrap_err();
    assert_eq!(err.kind, "io");
    assert_eq!(err.message, "reading identities/alice/tsig.key failed: boom");
    let err = plan_import(&entries, &Some(TarFault::Entry("eof".into())), 1, "alice", None, &idx).unwrap_err();
    assert_eq!(err.message, "reading archive entry failed: eof");
    let stray = Some(TarFault::Content { path: "elsewhere/x".into(), text: "boom".into() });
    let err = plan_import(&entries, &stray, 1, "alice", None, &idx).unwrap_err();
    assert_eq!(err.message, "unexpected archive entry: elsewhere/x");
    // The metadata search words the same faults its own way.
    let none: Vec<(String, Vec<u8>)> = Vec::new();
    assert_eq!(meta_entry(&none, &Some(TarFault::Open("x".into()))).unwrap_err().message, "opening archive failed: x");
    assert_eq!(meta_entry(&none, &Some(TarFault::Entry("x".into()))).unwrap_err().message, "reading entry failed: x");
    let meta_fault = Some(TarFault::Content { path: "backup-meta.json".into(), text: "x".into() });
    assert_eq!(meta_entry(&none, &meta_fault).unwrap_err().message, "reading meta failed: x");
    // A fault after the metadata does not stop the metadata search.
    assert!(meta_entry(&entries, &late).is_ok());
}
