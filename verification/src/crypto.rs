//! The cryptographic primitives the library calls: Argon2id key
//! derivation, ChaCha20-Poly1305 sealing, standard base64 and the
//! operating system's random number generator.

use vstd::prelude::*;
use base64::Engine;
use chacha20poly1305::aead::{Aead, KeyInit};
use rand::RngCore;
use crate::text::{is_ws, trim_end_seq, trim_seq, trim_start_seq};

verus! {

/// The key Argon2id (version 0x13) derives from `password` and `salt`
/// under memory cost `m_cost` KiB, `t_cost` passes, `p_cost` lanes and an
/// output of `out_len` bytes.
pub uninterp spec fn argon2id_key(
    m_cost: u32,
    t_cost: u32,
    p_cost: u32,
    out_len: usize,
    password: Seq<u8>,
    salt: Seq<u8>,
) -> Seq<u8>;

/// The ChaCha20-Poly1305 ciphertext (with its 16-byte tag appended) of
/// `plaintext` under `key` and `nonce`, with no associated data.
pub uninterp spec fn chacha_seal(key: Seq<u8>, nonce: Seq<u8>, plaintext: Seq<u8>) -> Seq<u8>;

/// What ChaCha20-Poly1305 decryption of `ciphertext` under `key` and
/// `nonce` yields: the plaintext, or `None` when authentication fails.
pub uninterp spec fn chacha_open(key: Seq<u8>, nonce: Seq<u8>, ciphertext: Seq<u8>) -> Option<
    Seq<u8>,
>;

/// What the standard base64 engine makes of `text`: the decoded bytes,
/// or the text its `DecodeError` displays.
pub uninterp spec fn b64_decode(text: Seq<char>) -> Result<Seq<u8>, Seq<char>>;

/// A successful decoding to `b`.
pub open spec fn decoded(b: Seq<u8>) -> Result<Seq<u8>, Seq<char>> {
    Ok(b)
}

/// A failed decoding whose error displays as `e`.
pub open spec fn decode_failed(e: Seq<char>) -> Result<Seq<u8>, Seq<char>> {
    Err(e)
}

/// Argon2 parameters that `argon2::Params::new` accepts.
pub open spec fn argon2_params_ok(m_cost: u32, t_cost: u32, p_cost: u32, out_len: usize) -> bool {
    &&& m_cost >= 8
    &&& m_cost >= 8 * p_cost
    &&& t_cost >= 1
    &&& 1 <= p_cost <= 0xff_ffff
    &&& 4 <= out_len <= 0xffff_ffff
}

/// Whether Argon2 accepts a password and salt of these lengths.
pub open spec fn argon2_inputs_ok(password_len: nat, salt_len: nat) -> bool {
    password_len <= 0xffff_ffff && 8 <= salt_len <= 0xffff_ffff
}

/// The text of the error Argon2 reports for inputs it refuses, as its
/// `Display` renders it.
pub open spec fn argon2_input_error(password_len: nat, salt_len: nat) -> Seq<char> {
    if password_len > 0xffff_ffff {
        "password is too long"@
    } else if salt_len < 8 {
        "salt is too short"@
    } else {
        "salt is too long"@
    }
}

/// Derive a key with Argon2id, version 0x13
/// (`argon2::Argon2::hash_password_into`).
///
/// Claims, for parameters `Params::new` accepts: the call succeeds exactly
/// when the password is at most 2^32 - 1 bytes and the salt between 8 and
/// 2^32 - 1 bytes; the key then has the requested length and is
/// `argon2id_key` of the inputs, and otherwise the error text is the one
/// `argon2::Error` displays for the first check that failed.
#[verifier::external_body]
pub(crate) fn argon2id_derive(
    m_cost: u32,
    t_cost: u32,
    p_cost: u32,
    out_len: usize,
    password: &[u8],
    salt: &[u8],
) -> (key: Result<Vec<u8>, String>)
    requires
        argon2_params_ok(m_cost, t_cost, p_cost, out_len),
    ensures
        key is Ok <==> argon2_inputs_ok(password@.len(), salt@.len()),
        key matches Ok(k) ==> k@.len() == out_len && k@ == argon2id_key(
            m_cost,
            t_cost,
            p_cost,
            out_len,
            password@,
            salt@,
        ),
        key matches Err(e) ==> e@ == argon2_input_error(password@.len(), salt@.len()),
{
    let params = match argon2::Params::new(m_cost, t_cost, p_cost, Some(out_len)) {
        Ok(p) => p,
        Err(e) => return Err(e.to_string()),
    };
    let hasher = argon2::Argon2::new(argon2::Algorithm::Argon2id, argon2::Version::V0x13, params);
    let mut key = vec![0u8; out_len];
    match hasher.hash_password_into(password, salt, &mut key) {
        Ok(()) => Ok(key),
        Err(e) => Err(e.to_string()),
    }
}

/// Largest plaintext ChaCha20-Poly1305 (RustCrypto) accepts, exclusive:
/// 64-byte blocks below `u32::MAX` of them.
pub open spec fn chacha_max_len() -> int {
    274877906880
}

/// Encrypt with ChaCha20-Poly1305 (`Aead::encrypt`, no associated data).
///
/// Claims: the call succeeds for any plaintext shorter than
/// `chacha_max_len()`; its output is `chacha_seal` of the inputs, 16
/// bytes longer than the plaintext, and decrypts under the same key and
/// nonce to the plaintext (the AEAD's correctness).
#[verifier::external_body]
pub(crate) fn chacha_encrypt(key: &[u8], nonce: &[u8], plaintext: &[u8]) -> (ct: Option<Vec<u8>>)
    requires
        key@.len() == 32,
        nonce@.len() == 12,
    ensures
        plaintext@.len() < chacha_max_len() ==> ct is Some,
        ct matches Some(c) ==> {
            &&& c@ == chacha_seal(key@, nonce@, plaintext@)
            &&& c@.len() == plaintext@.len() + 16
            &&& chacha_open(key@, nonce@, c@) == Some(plaintext@)
        },
{
    let cipher = chacha20poly1305::ChaCha20Poly1305::new_from_slice(key).ok()?;
    cipher.encrypt(chacha20poly1305::Nonce::from_slice(nonce), plaintext).ok()
}

/// Decrypt with ChaCha20-Poly1305 (`Aead::decrypt`, no associated data).
///
/// Claims: the result is `chacha_open` of the inputs.
#[verifier::external_body]
pub(crate) fn chacha_decrypt(key: &[u8], nonce: &[u8], ciphertext: &[u8]) -> (pt: Option<Vec<u8>>)
    requires
        key@.len() == 32,
        nonce@.len() == 12,
    ensures
        match pt {
            Some(p) => chacha_open(key@, nonce@, ciphertext@) == Some(p@),
            None => chacha_open(key@, nonce@, ciphertext@) is None,
        },
{
    let cipher = chacha20poly1305::ChaCha20Poly1305::new_from_slice(key).ok()?;
    cipher.decrypt(chacha20poly1305::Nonce::from_slice(nonce), ciphertext).ok()
}

/// `n` bytes from the thread-local generator (`rand::RngCore::fill_bytes`
/// on `rand::thread_rng()`).
///
/// Claims only the length: the bytes themselves are random.
#[verifier::external_body]
pub(crate) fn random_bytes(n: usize) -> (v: Vec<u8>)
    ensures
        v@.len() == n,
{
    let mut v = vec![0u8; n];
    rand::thread_rng().fill_bytes(&mut v);
    v
}

/// The standard base64 alphabet.
pub open spec fn b64_char(i: int) -> char {
    if i < 26 {
        (('A' as u32) + i) as char
    } else if i < 52 {
        (('a' as u32) + (i - 26)) as char
    } else if i < 62 {
        (('0' as u32) + (i - 52)) as char
    } else if i == 62 {
        '+'
    } else {
        '/'
    }
}

/// Standard base64 with `=` padding, as `base64::engine::general_purpose::STANDARD`
/// encodes.
pub open spec fn b64_encode_spec(b: Seq<u8>) -> Seq<char>
    decreases b.len(),
{
    if b.len() == 0 {
        seq![]
    } else if b.len() == 1 {
        seq![b64_char(b[0] as int / 4), b64_char((b[0] % 4) * 16), '=', '=']
    } else if b.len() == 2 {
        seq![
            b64_char(b[0] as int / 4),
            b64_char((b[0] % 4) * 16 + b[1] / 16),
            b64_char((b[1] % 16) * 4),
            '=',
        ]
    } else {
        seq![
            b64_char(b[0] as int / 4),
            b64_char((b[0] % 4) * 16 + b[1] / 16),
            b64_char((b[1] % 16) * 4 + b[2] / 64),
            b64_char(b[2] as int % 64),
        ] + b64_encode_spec(b.subrange(3, b.len() as int))
    }
}

/// Encode with the standard base64 engine (`Engine::encode` on
/// `base64::engine::general_purpose::STANDARD`).
///
/// Claims: the text is the padded standard encoding, and the same engine
/// decodes it back to the input.
#[verifier::external_body]
pub(crate) fn b64_encode(bytes: &[u8]) -> (s: String)
    ensures
        s@ == b64_encode_spec(bytes@),
        b64_decode(s@) == decoded(bytes@),
{
    base64::engine::general_purpose::STANDARD.encode(bytes)
}

/// Decode with the standard base64 engine (`Engine::decode` on
/// `base64::engine::general_purpose::STANDARD`).
///
/// Claims: the result is `b64_decode` of the text, the error carried as
/// its `Display` text.
#[verifier::external_body]
pub(crate) fn b64_decode_str(text: &str) -> (r: Result<Vec<u8>, String>)
    ensures
        match r {
            Ok(v) => b64_decode(text@) == decoded(v@),
            Err(e) => b64_decode(text@) == decode_failed(e@),
        },
{
    match base64::engine::general_purpose::STANDARD.decode(text) {
        Ok(v) => Ok(v),
        Err(e) => Err(e.to_string()),
    }
}

/// No character of the base64 alphabet is whitespace.
proof fn lemma_b64_char_not_ws(i: int)
    requires
        0 <= i < 64,
    ensures
        !is_ws(b64_char(i)),
{
    if i < 26 {
        assert((b64_char(i) as u32) == 65 + i);
    } else if i < 52 {
        assert((b64_char(i) as u32) == 97 + (i - 26));
    } else if i < 62 {
        assert((b64_char(i) as u32) == 48 + (i - 52));
    }
}

/// No character of a base64 encoding is whitespace.
pub proof fn lemma_b64_no_ws(b: Seq<u8>)
    ensures
        forall|k: int| 0 <= k < b64_encode_spec(b).len() ==> !is_ws(#[trigger] b64_encode_spec(b)[k]),
    decreases b.len(),
{
    let s = b64_encode_spec(b);
    if b.len() == 0 {
    } else if b.len() == 1 {
        lemma_b64_char_not_ws(b[0] as int / 4);
        lemma_b64_char_not_ws((b[0] % 4) * 16);
    } else if b.len() == 2 {
        lemma_b64_char_not_ws(b[0] as int / 4);
        lemma_b64_char_not_ws((b[0] % 4) * 16 + b[1] / 16);
        lemma_b64_char_not_ws((b[1] % 16) * 4);
    } else {
        let rest = b.subrange(3, b.len() as int);
        lemma_b64_no_ws(rest);
        lemma_b64_char_not_ws(b[0] as int / 4);
        lemma_b64_char_not_ws((b[0] % 4) * 16 + b[1] / 16);
        lemma_b64_char_not_ws((b[1] % 16) * 4 + b[2] / 64);
        lemma_b64_char_not_ws(b[2] as int % 64);
        let head = seq![
            b64_char(b[0] as int / 4),
            b64_char((b[0] % 4) * 16 + b[1] / 16),
            b64_char((b[1] % 16) * 4 + b[2] / 64),
            b64_char(b[2] as int % 64),
        ];
        assert(s == head + b64_encode_spec(rest));
        assert forall|k: int| 0 <= k < s.len() implies !is_ws(#[trigger] s[k]) by {
            if k >= 4 {
                assert(s[k] == b64_encode_spec(rest)[k - 4]);
            }
        }
    }
}

/// Trimming a string with no whitespace leaves it unchanged.
pub proof fn lemma_trim_no_ws(s: Seq<char>)
    requires
        forall|k: int| 0 <= k < s.len() ==> !is_ws(#[trigger] s[k]),
    ensures
        trim_seq(s) == s,
{
    assert(trim_start_seq(s) == s);
    assert(trim_end_seq(s) == s);
}

} // verus!
