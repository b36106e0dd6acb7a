use base64::Engine as _;
use base64::engine::general_purpose::STANDARD as BASE64_STANDARD;
use dnsmesh_app::atrest::{open, seal};

const KEY: [u8; 32] = [0x2a; 32];

#[test]
fn seal_open_round_trip() {
    let sealed = seal(&KEY, b"hello world").unwrap();
    assert_eq!(open(&KEY, &sealed).as_deref(), Some(&b"hello world"[..]));
}

#[test]
fn sealed_line_does_not_contain_the_plaintext() {
    let sealed = seal(&KEY, b"SENSITIVE-BODY").unwrap();
    assert!(!sealed.contains("SENSITIVE-BODY"));
    let raw = BASE64_STANDARD.decode(&sealed).unwrap();
    assert!(
        !raw.windows(14).any(|w| w == b"SENSITIVE-BODY"),
        "plaintext survived into the sealed bytes",
    );
}

#[test]
fn wrong_key_does_not_open() {
    let sealed = seal(&KEY, b"hello").unwrap();
    assert_eq!(open(&[0x99; 32], &sealed), None);
}

#[test]
fn each_seal_uses_a_fresh_nonce() {
    let a = seal(&KEY, b"same").unwrap();
    let b = seal(&KEY, b"same").unwrap();
    assert_ne!(a, b, "identical plaintexts produced identical lines");
    assert_eq!(open(&KEY, &a), open(&KEY, &b));
}

#[test]
fn malformed_input_returns_none() {
    assert_eq!(open(&KEY, "not base64 at all !!!"), None);
    assert_eq!(open(&KEY, ""), None);
    assert_eq!(open(&KEY, &BASE64_STANDARD.encode([0u8; 4])), None);
    assert_eq!(open(&KEY, r#"{"msg_id_hex":"aa"}"#), None);
}

#[test]
fn short_key_is_refused() {
    assert!(seal(&[0u8; 16], b"x").is_err());
    assert_eq!(seal(&[0u8; 16], b"x").unwrap_err(), "storage key must be 32 bytes");
}

#[test]
fn open_tolerates_surrounding_whitespace() {
    let sealed = seal(&KEY, b"x").unwrap();
    assert_eq!(open(&KEY, &format!("  {sealed}\n")).as_deref(), Some(&b"x"[..]));
    assert_eq!(open(&[0x2a; 31], &sealed), None);
}
