use dnsmesh_app::paths::{path_components, path_join, same_path};
use dnsmesh_app::username::sanitize_username;
use dnsmesh_app::tsig::{decode_tsig_secret, plaintext_candidates, plaintext_path, sealed_path};

fn comps(p: &str) -> Vec<String> {
    path_components(p).into_iter().map(|c| c.into_iter().collect()).collect()
}

#[test]
fn components_follow_std_path() {
    assert_eq!(comps("/a//b/./c/"), vec!["/", "a", "b", "c"]);
    assert_eq!(comps("./a/../b"), vec![".", "a", "..", "b"]);
    assert_eq!(comps(""), Vec::<String>::new());
    for p in ["/a//b/./c/", "./a/../b", "a", "..", "/", "a/./b/"] {
        let std_comps: Vec<String> = std::path::Path::new(p)
            .components()
            .map(|c| c.as_os_str().to_string_lossy().into_owned())
            .collect();
        assert_eq!(comps(p), std_comps, "components of {p}");
    }
}

#[test]
fn join_follows_std_path() {
    for (base, part) in [("/r", "alice"), ("/r/", "alice"), ("", "alice"), ("/r", "/abs")] {
        let expected = std::path::Path::new(base).join(part).to_string_lossy().into_owned();
        assert_eq!(path_join(base, part), expected);
    }
}

#[test]
fn same_path_compares_components() {
    assert!(same_path("/a/b", "/a//b/"));
    assert!(same_path("/a/./b", "/a/b"));
    assert!(!same_path("/a/b", "/a/c"));
    assert!(!same_path("a", "/a"));
}

#[test]
fn tsig_paths_and_candidates() {
    assert_eq!(plaintext_path("/id"), "/id/tsig.key");
    assert_eq!(sealed_path("/id"), "/id/tsig.key.sealed");
    assert_eq!(plaintext_candidates("/id", None), vec!["/id/tsig.key".to_string()]);
    assert_eq!(plaintext_candidates("/id", Some("/id//tsig.key")), vec!["/id/tsig.key".to_string()]);
    assert_eq!(
        plaintext_candidates("/id", Some("/elsewhere/custom-tsig.key")),
        vec!["/elsewhere/custom-tsig.key".to_string(), "/id/tsig.key".to_string()]
    );
}

#[test]
fn tsig_secret_file_formats() {
    assert_eq!(decode_tsig_secret("/p", b" base64:c2VjcmV0 \n".to_vec()).unwrap(), b"secret");
    assert_eq!(decode_tsig_secret("/p", b"hex: 6b6579".to_vec()).unwrap(), b"key");
    assert_eq!(decode_tsig_secret("/p", b"raw-bytes".to_vec()).unwrap(), b"raw-bytes");
    assert_eq!(decode_tsig_secret("/p", vec![0xff, 0x00]).unwrap(), vec![0xff, 0x00]);
    let e = decode_tsig_secret("/p", b"hex:abc".to_vec()).unwrap_err();
    assert_eq!(e.message, "hex-decoding TSIG secret at /p: Odd number of digits");
    let e = decode_tsig_secret("/p", b"base64:***".to_vec()).unwrap_err();
    assert!(e.message.starts_with("base64-decoding TSIG secret at /p: "));
}

#[test]
fn sanitized_username_is_one_path_component() {
    let name = sanitize_username("  carol  ").unwrap();
    assert_eq!(comps(&name), vec!["carol".to_string()]);
}
