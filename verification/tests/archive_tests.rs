use dnsmesh_app::archive::{decrypt, encrypt, is_encrypted, MAGIC_LEN, VERSION};

const PASS: &str = "correct horse battery staple";
const MAGIC: &[u8; 6] = b"DMPBAK";

#[test]
fn round_trips() {
    let sealed = encrypt(PASS, b"tar.gz bytes here").unwrap();
    assert_eq!(decrypt(PASS, &sealed).unwrap(), b"tar.gz bytes here");
}

#[test]
fn wrong_passphrase_is_rejected_with_its_own_kind() {
    let sealed = encrypt(PASS, b"payload").unwrap();
    let err = decrypt("not the passphrase", &sealed).unwrap_err();
    assert_eq!(err.kind, "wrong_archive_passphrase");
}

#[test]
fn ciphertext_does_not_contain_the_plaintext() {
    const CANARY: &[u8] = b"SENSITIVE-ARCHIVE-CONTENT-CANARY";
    let sealed = encrypt(PASS, CANARY).unwrap();
    assert!(!sealed.windows(CANARY.len()).any(|w| w == CANARY));
}

#[test]
fn each_encryption_uses_fresh_salt_and_nonce() {
    let a = encrypt(PASS, b"same").unwrap();
    let b = encrypt(PASS, b"same").unwrap();
    assert_ne!(a, b);
    assert_eq!(decrypt(PASS, &a).unwrap(), decrypt(PASS, &b).unwrap());
}

#[test]
fn legacy_plaintext_archive_is_named_as_such() {
    let err = decrypt(PASS, &[0x1f, 0x8b, 0x08, 0x00, 0x00]).unwrap_err();
    assert_eq!(err.kind, "legacy_plaintext_archive");
}

#[test]
fn truncated_and_unsupported_envelopes_are_rejected() {
    let mut short = MAGIC.to_vec();
    short.push(VERSION);
    assert_eq!(decrypt(PASS, &short).unwrap_err().kind, "validation");

    let mut wrong_version = encrypt(PASS, b"x").unwrap();
    wrong_version[MAGIC.len()] = 99;
    assert_eq!(decrypt(PASS, &wrong_version).unwrap_err().kind, "validation");
}

#[test]
fn unsupported_version_message_names_it() {
    let mut bytes = MAGIC.to_vec();
    bytes.push(7);
    bytes.extend_from_slice(&[0u8; 40]);
    let err = decrypt(PASS, &bytes).unwrap_err();
    assert_eq!(err.message, "archive envelope version 7 is not supported (expected 1)");
    assert_eq!(bytes[MAGIC_LEN], 7);
}

#[test]
fn empty_passphrase_is_refused() {
    assert_eq!(encrypt("", b"x").unwrap_err().kind, "validation");
}

#[test]
fn is_encrypted_discriminates() {
    assert!(is_encrypted(&encrypt(PASS, b"payload").unwrap()));
    assert!(!is_encrypted(&[0x1f, 0x8b, 0x08, 0x00]));
    assert!(!is_encrypted(MAGIC), "header alone is not a valid archive");
}

#[test]
fn modified_ciphertext_fails_authentication() {
    let mut sealed = encrypt(PASS, b"payload").unwrap();
    let last = sealed.len() - 1;
    sealed[last] ^= 0xff;
    assert_eq!(decrypt(PASS, &sealed).unwrap_err().kind, "wrong_archive_passphrase",);
}

#[test]
fn envelope_layout() {
    let sealed = encrypt(PASS, b"abc").unwrap();
    assert_eq!(&sealed[..6], MAGIC);
    assert_eq!(sealed[6], 1);
    assert_eq!(sealed.len(), 35 + 3 + 16);
}
