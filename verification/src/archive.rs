//! Passphrase encryption for the backup archive.
//!
//! Envelope: `"DMPBAK" || version(1) || salt(16) || nonce(12) || ciphertext`.
//! The key is Argon2id over the archive's own passphrase and the salt; the
//! ciphertext is ChaCha20-Poly1305 under that key and the nonce.

use vstd::prelude::*;
use crate::bytes::{append_bytes, bytes_start_with};
use crate::crypto::{
    argon2id_derive, argon2id_key, argon2_input_error, argon2_inputs_ok, chacha_decrypt,
    chacha_encrypt, chacha_max_len, chacha_open, chacha_seal, random_bytes,
};
use crate::error::{no_details, err, err_view, outcome_is, CommandError, ErrorView};
use crate::text::{decimal, decimal_string};
use vstd::string::StringExecFns;

verus! {

/// Envelope version. Bump on any layout change.
pub const VERSION: u8 = 1;

/// Length of the envelope magic.
pub const MAGIC_LEN: usize = 6;

/// Salt length.
pub const SALT_LEN: usize = 16;

/// Nonce length.
pub const NONCE_LEN: usize = 12;

/// Derived key length.
pub const KEY_LEN: usize = 32;

/// Byte offset where the ciphertext starts.
pub const HEADER_LEN: usize = MAGIC_LEN + 1 + SALT_LEN + NONCE_LEN;

/// Argon2id memory cost in KiB.
pub const ARGON2_MEMORY_KIB: u32 = 32 * 1024;

/// Argon2id passes.
pub const ARGON2_TIME_COST: u32 = 2;

/// Argon2id lanes.
pub const ARGON2_PARALLELISM: u32 = 2;

/// The envelope magic, `"DMPBAK"`.
pub open spec fn magic() -> Seq<u8> {
    seq![0x44u8, 0x4du8, 0x50u8, 0x42u8, 0x41u8, 0x4bu8]
}

/// Whether `b` starts with the envelope magic.
pub open spec fn has_magic(b: Seq<u8>) -> bool {
    b.len() >= MAGIC_LEN && b.subrange(0, MAGIC_LEN as int) == magic()
}

/// Whether `b` looks like an encrypted archive: the magic and at least one
/// byte after the header.
pub open spec fn is_encrypted_spec(b: Seq<u8>) -> bool {
    b.len() > HEADER_LEN && has_magic(b)
}

/// The archive key for `passphrase` and `salt`.
pub open spec fn archive_key(passphrase: Seq<char>, salt: Seq<u8>) -> Seq<u8> {
    argon2id_key(
        ARGON2_MEMORY_KIB,
        ARGON2_TIME_COST,
        ARGON2_PARALLELISM,
        KEY_LEN,
        vstd::utf8::encode_utf8(passphrase),
        salt,
    )
}

/// Salt of an envelope.
pub open spec fn salt_of(b: Seq<u8>) -> Seq<u8> {
    b.subrange(MAGIC_LEN + 1, MAGIC_LEN + 1 + SALT_LEN)
}

/// Nonce of an envelope.
pub open spec fn nonce_of(b: Seq<u8>) -> Seq<u8> {
    b.subrange(MAGIC_LEN + 1 + SALT_LEN, HEADER_LEN as int)
}

/// Ciphertext of an envelope.
pub open spec fn ciphertext_of(b: Seq<u8>) -> Seq<u8> {
    b.subrange(HEADER_LEN as int, b.len() as int)
}

/// Message of the error for an archive without the magic.
pub open spec fn legacy_message() -> Seq<char> {
    "this archive is not encrypted — it was exported by an older version. Restore it with that version, or re-export it from an install that can still open the identity."@
}

/// Message of the error for an archive that fails authentication.
pub open spec fn wrong_passphrase_message() -> Seq<char> {
    "could not decrypt the archive: wrong passphrase, or the file is damaged"@
}

/// What `decrypt` returns for `passphrase` and `b`.
pub open spec fn decrypt_spec(passphrase: Seq<char>, b: Seq<u8>) -> Result<Seq<u8>, ErrorView> {
    if !has_magic(b) {
        Err(("legacy_plaintext_archive"@, legacy_message()))
    } else if b.len() <= HEADER_LEN {
        Err(("validation"@, "archive is truncated: no ciphertext after the header"@))
    } else if b[MAGIC_LEN as int] != VERSION {
        Err(
            (
                "validation"@,
                "archive envelope version "@ + decimal(b[MAGIC_LEN as int] as nat)
                    + " is not supported (expected 1)"@,
            ),
        )
    } else {
        let pw = vstd::utf8::encode_utf8(passphrase);
        if !argon2_inputs_ok(pw.len(), SALT_LEN as nat) {
            Err(("internal"@, "deriving archive key: "@ + argon2_input_error(pw.len(), SALT_LEN as nat)))
        } else {
            match chacha_open(archive_key(passphrase, salt_of(b)), nonce_of(b), ciphertext_of(b)) {
                Some(p) => Ok(p),
                None => Err(("wrong_archive_passphrase"@, wrong_passphrase_message())),
            }
        }
    }
}

/// Whether `out` is an envelope of `plaintext` under `passphrase`: the
/// magic, the version, some salt and nonce, and the ciphertext of the
/// plaintext under the key derived from that salt, which decrypts back.
pub open spec fn sealed_archive(passphrase: Seq<char>, plaintext: Seq<u8>, out: Seq<u8>) -> bool {
    &&& out.len() == HEADER_LEN + plaintext.len() + 16
    &&& has_magic(out)
    &&& out[MAGIC_LEN as int] == VERSION
    &&& argon2_inputs_ok(vstd::utf8::encode_utf8(passphrase).len(), SALT_LEN as nat)
    &&& ciphertext_of(out) == chacha_seal(
        archive_key(passphrase, salt_of(out)),
        nonce_of(out),
        plaintext,
    )
    &&& chacha_open(archive_key(passphrase, salt_of(out)), nonce_of(out), ciphertext_of(out))
        == Some(plaintext)
}

/// Every sealed archive is recognised as encrypted and decrypts, under the
/// passphrase it was sealed with, to the plaintext it was sealed from.
pub proof fn lemma_decrypt_sealed(passphrase: Seq<char>, plaintext: Seq<u8>, out: Seq<u8>)
    requires
        sealed_archive(passphrase, plaintext, out),
    ensures
        is_encrypted_spec(out),
        decrypt_spec(passphrase, out) == Ok::<Seq<u8>, ErrorView>(plaintext),
{
}

/// Whether `encrypt` succeeds: a non-empty passphrase Argon2 accepts and
/// a plaintext ChaCha20-Poly1305 accepts.
pub open spec fn encrypt_succeeds(passphrase: Seq<char>, plaintext: Seq<u8>) -> bool {
    &&& passphrase.len() > 0
    &&& argon2_inputs_ok(vstd::utf8::encode_utf8(passphrase).len(), SALT_LEN as nat)
    &&& plaintext.len() < chacha_max_len()
}

/// The error `encrypt` reports when it does not succeed.
pub open spec fn encrypt_error(passphrase: Seq<char>, plaintext: Seq<u8>) -> ErrorView {
    let pw_len = vstd::utf8::encode_utf8(passphrase).len();
    if passphrase.len() == 0 {
        ("validation"@, "an archive passphrase is required"@)
    } else if !argon2_inputs_ok(pw_len, SALT_LEN as nat) {
        ("internal"@, "deriving archive key: "@ + argon2_input_error(pw_len, SALT_LEN as nat))
    } else {
        ("internal"@, "encrypting archive failed"@)
    }
}

/// Whether `bytes` starts with the envelope magic.
fn starts_with_magic(bytes: &[u8]) -> (b: bool)
    ensures
        b == has_magic(bytes@),
{
    let m: Vec<u8> = vec![0x44u8, 0x4du8, 0x50u8, 0x42u8, 0x41u8, 0x4bu8];
    assert(m@ =~= magic());
    bytes_start_with(bytes, m.as_slice())
}

/// True if `bytes` looks like an encrypted archive.
///
/// Used so import can give a plaintext archive from an older build a clear
/// message instead of failing as though the passphrase were wrong.
pub fn is_encrypted(bytes: &[u8]) -> (b: bool)
    ensures
        b == is_encrypted_spec(bytes@),
{
    bytes.len() > HEADER_LEN && starts_with_magic(bytes)
}

/// Derive the archive key from `passphrase` and `salt`.
fn derive_key(passphrase: &str, salt: &[u8]) -> (r: Result<Vec<u8>, CommandError>)
    ensures
        no_details(r),
        r is Ok <==> argon2_inputs_ok(vstd::utf8::encode_utf8(passphrase@).len(), salt@.len()),
        r matches Ok(k) ==> k@ == archive_key(passphrase@, salt@) && k@.len() == KEY_LEN,
        r matches Err(e) ==> err_view(e) == (
            "internal"@,
            "deriving archive key: "@ + argon2_input_error(
                vstd::utf8::encode_utf8(passphrase@).len(),
                salt@.len(),
            ),
        ),
{
    let pw = passphrase.as_bytes();
    match argon2id_derive(ARGON2_MEMORY_KIB, ARGON2_TIME_COST, ARGON2_PARALLELISM, KEY_LEN, pw, salt) {
        Ok(k) => Ok(k),
        Err(e) => {
            let mut m = String::from_str("deriving archive key: ");
            m.append(e.as_str());
            Err(err("internal", m))
        },
    }
}

/// Wrap `plaintext` under `passphrase`.
///
/// The salt and nonce are fresh random bytes on every call, so two
/// exports of the same content differ; whatever they are, the result
/// decrypts under `passphrase` to `plaintext`.
pub fn encrypt(passphrase: &str, plaintext: &[u8]) -> (r: Result<Vec<u8>, CommandError>)
    ensures
        no_details(r),
        encrypt_succeeds(passphrase@, plaintext@) ==> r is Ok,
        match r {
            Ok(out) => {
                &&& passphrase@.len() > 0
                &&& sealed_archive(passphrase@, plaintext@, out@)
                &&& is_encrypted_spec(out@)
                &&& decrypt_spec(passphrase@, out@) == Ok::<Seq<u8>, ErrorView>(plaintext@)
            },
            Err(e) => !encrypt_succeeds(passphrase@, plaintext@) && err_view(e) == encrypt_error(
                passphrase@,
                plaintext@,
            ),
        },
{
    if passphrase.is_empty() {
        return Err(err("validation", String::from_str("an archive passphrase is required")));
    }
    let salt = random_bytes(SALT_LEN);
    let nonce = random_bytes(NONCE_LEN);
    let key = match derive_key(passphrase, salt.as_slice()) {
        Ok(k) => k,
        Err(e) => return Err(e),
    };
    let ciphertext = match chacha_encrypt(key.as_slice(), nonce.as_slice(), plaintext) {
        Some(c) => c,
        None => return Err(err("internal", String::from_str("encrypting archive failed"))),
    };
    let mut out: Vec<u8> = vec![0x44u8, 0x4du8, 0x50u8, 0x42u8, 0x41u8, 0x4bu8];
    out.push(VERSION);
    append_bytes(&mut out, salt.as_slice());
    append_bytes(&mut out, nonce.as_slice());
    append_bytes(&mut out, ciphertext.as_slice());
    proof {
        let o = out@;
        assert(o.subrange(0, MAGIC_LEN as int) =~= magic());
        assert(salt_of(o) =~= salt@);
        assert(nonce_of(o) =~= nonce@);
        assert(ciphertext_of(o) =~= ciphertext@);
        lemma_decrypt_sealed(passphrase@, plaintext@, o);
    }
    Ok(out)
}

/// Unwrap an archive produced by [`encrypt`].
///
/// A wrong passphrase and a corrupt file are indistinguishable to the AEAD,
/// so both report `wrong_archive_passphrase`.
pub fn decrypt(passphrase: &str, bytes: &[u8]) -> (r: Result<Vec<u8>, CommandError>)
    ensures
        no_details(r),
        outcome_is(r, decrypt_spec(passphrase@, bytes@), |v: Vec<u8>| v@),
{
    if !starts_with_magic(bytes) {
        return Err(
            err(
                "legacy_plaintext_archive",
                String::from_str(
                    "this archive is not encrypted — it was exported by an older version. Restore it with that version, or re-export it from an install that can still open the identity.",
                ),
            ),
        );
    }
    if bytes.len() <= HEADER_LEN {
        return Err(
            err(
                "validation",
                String::from_str("archive is truncated: no ciphertext after the header"),
            ),
        );
    }
    let version = bytes[MAGIC_LEN];
    if version != VERSION {
        let mut m = String::from_str("archive envelope version ");
        let d = decimal_string(version as u128);
        m.append(d.as_str());
        m.append(" is not supported (expected 1)");
        return Err(err("validation", m));
    }
    let salt = &bytes[MAGIC_LEN + 1..MAGIC_LEN + 1 + SALT_LEN];
    let nonce = &bytes[MAGIC_LEN + 1 + SALT_LEN..HEADER_LEN];
    let ciphertext = &bytes[HEADER_LEN..bytes.len()];
    let key = match derive_key(passphrase, salt) {
        Ok(k) => k,
        Err(e) => return Err(e),
    };
    match chacha_decrypt(key.as_slice(), nonce, ciphertext) {
        Some(p) => Ok(p),
        None => Err(
            err(
                "wrong_archive_passphrase",
                String::from_str(
                    "could not decrypt the archive: wrong passphrase, or the file is damaged",
                ),
            ),
        ),
    }
}

} // verus!
