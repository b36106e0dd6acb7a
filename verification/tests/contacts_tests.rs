use dnsmesh_app::contacts::{contact_username, contact_view, parse_hex_32, validate_contact, AddContactArgs};

#[test]
fn parse_hex_32_accepts_valid_hex() {
    let v = parse_hex_32("test", &"a".repeat(64)).unwrap();
    assert_eq!(v, [0xaa; 32]);
}

#[test]
fn parse_hex_32_rejects_wrong_length() {
    let err = parse_hex_32("test", "aabb").unwrap_err();
    assert_eq!(err.kind, "validation");
    assert_eq!(err.message, "test must decode to 32 bytes (got 2)");
}

#[test]
fn parse_hex_32_rejects_invalid_hex() {
    let err = parse_hex_32("test", "zz").unwrap_err();
    assert_eq!(err.kind, "validation");
    assert!(err.message.starts_with("test is not valid hex: "));
    assert_eq!(parse_hex_32("f", "abc").unwrap_err().message, "f is not valid hex: Odd number of digits");
}

#[test]
fn manual_contact_is_trimmed_and_checked() {
    let args = AddContactArgs {
        username: " bob ".into(),
        domain: " mesh.local ".into(),
        x25519_public_key_hex: "01".repeat(32),
        ed25519_signing_public_key_hex: "AB".repeat(32),
    };
    let c = validate_contact(&args).unwrap();
    assert_eq!(c.username, "bob");
    assert_eq!(c.domain, "mesh.local");
    assert_eq!(c.x25519_pk, vec![1u8; 32]);
    assert_eq!(c.ed25519_spk, vec![0xab; 32]);
    let mut no_domain = args.clone();
    no_domain.domain = "  ".into();
    assert_eq!(validate_contact(&no_domain).unwrap_err().message, "domain must not be empty");
    let mut no_name = args.clone();
    no_name.username = "".into();
    assert_eq!(validate_contact(&no_name).unwrap_err().message, "username must not be empty");
    let mut bad_key = args;
    bad_key.ed25519_signing_public_key_hex = "00".into();
    assert!(validate_contact(&bad_key).unwrap_err().message.starts_with("ed25519_signing_public_key_hex"));
}

#[test]
fn contact_view_hex_encodes_keys() {
    let v = contact_view("bob".into(), "".into(), &[0xde, 0xad], &[0x01]);
    assert_eq!(v.x25519_public_key_hex, "dead");
    assert_eq!(v.ed25519_signing_public_key_hex, "01");
    assert_eq!(contact_username(" x ").unwrap(), "x");
    assert!(contact_username(" ").is_err());
}
