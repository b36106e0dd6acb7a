//! At-rest encryption for the per-identity files kept outside the
//! database: one record per line, each sealed independently as
//! `base64(nonce[12] || ChaCha20-Poly1305(plaintext))`.

use vstd::prelude::*;
use crate::bytes::append_bytes;
use crate::crypto::{
    b64_decode, b64_decode_str, b64_encode, b64_encode_spec, chacha_decrypt, chacha_encrypt,
    chacha_max_len, chacha_open, chacha_seal, lemma_b64_no_ws, lemma_trim_no_ws, random_bytes,
};
use crate::text::{trim, trim_seq};
use vstd::string::StringExecFns;

verus! {

/// ChaCha20-Poly1305 nonce length.
pub const NONCE_LEN: usize = 12;

/// Length of a storage key.
pub const STORAGE_KEY_LEN: usize = 32;

/// What `open` returns for `key` and `line`.
pub open spec fn open_spec(key: Seq<u8>, line: Seq<char>) -> Option<Seq<u8>> {
    match b64_decode(trim_seq(line)) {
        Err(_) => None,
        Ok(framed) => if framed.len() <= NONCE_LEN || key.len() != STORAGE_KEY_LEN {
            None
        } else {
            chacha_open(
                key,
                framed.subrange(0, NONCE_LEN as int),
                framed.subrange(NONCE_LEN as int, framed.len() as int),
            )
        },
    }
}

/// Whether `framed` is a nonce followed by the sealing of `plaintext`
/// under `key` and that nonce, which opens back to the plaintext.
pub open spec fn sealed_frame(key: Seq<u8>, plaintext: Seq<u8>, framed: Seq<u8>) -> bool {
    let nonce = framed.subrange(0, NONCE_LEN as int);
    let ct = framed.subrange(NONCE_LEN as int, framed.len() as int);
    &&& framed.len() == NONCE_LEN + plaintext.len() + 16
    &&& ct == chacha_seal(key, nonce, plaintext)
    &&& chacha_open(key, nonce, ct) == Some(plaintext)
}

/// Whether `line` is a sealed record of `plaintext` under `key`: the
/// base64 of a sealed frame, which base64 decodes back to that frame.
pub open spec fn sealed_record(key: Seq<u8>, plaintext: Seq<u8>, line: Seq<char>) -> bool {
    exists|framed: Seq<u8>|
        #![trigger b64_encode_spec(framed)]
        {
            &&& sealed_frame(key, plaintext, framed)
            &&& line == b64_encode_spec(framed)
            &&& b64_decode(line) == Ok::<Seq<u8>, Seq<char>>(framed)
        }
}

/// A record sealed under a storage key opens, under the same key, to the
/// plaintext it was sealed from.
pub proof fn lemma_open_sealed(key: Seq<u8>, plaintext: Seq<u8>, line: Seq<char>)
    requires
        key.len() == STORAGE_KEY_LEN,
        sealed_record(key, plaintext, line),
    ensures
        open_spec(key, line) == Some(plaintext),
{
    let framed = choose|framed: Seq<u8>|
        #![trigger b64_encode_spec(framed)]
        {
            &&& sealed_frame(key, plaintext, framed)
            &&& line == b64_encode_spec(framed)
            &&& b64_decode(line) == Ok::<Seq<u8>, Seq<char>>(framed)
        };
    lemma_b64_no_ws(framed);
    lemma_trim_no_ws(line);
}

/// Seal one record; returns the base64 line to write.
///
/// A fresh random nonce per call. Fails only for a key that is not 32
/// bytes, or a plaintext too long for the cipher.
pub fn seal(key: &[u8], plaintext: &[u8]) -> (r: Result<String, String>)
    ensures
        key@.len() == STORAGE_KEY_LEN && plaintext@.len() < chacha_max_len() ==> r is Ok,
        match r {
            Ok(line) => {
                &&& key@.len() == STORAGE_KEY_LEN
                &&& sealed_record(key@, plaintext@, line@)
                &&& open_spec(key@, line@) == Some(plaintext@)
            },
            Err(m) => if key@.len() != STORAGE_KEY_LEN {
                m@ == "storage key must be 32 bytes"@
            } else {
                plaintext@.len() >= chacha_max_len() && m@ == "sealing record failed"@
            },
        },
{
    if key.len() != STORAGE_KEY_LEN {
        return Err(String::from_str("storage key must be 32 bytes"));
    }
    let nonce = random_bytes(NONCE_LEN);
    let ciphertext = match chacha_encrypt(key, nonce.as_slice(), plaintext) {
        Some(c) => c,
        None => return Err(String::from_str("sealing record failed")),
    };
    let mut framed: Vec<u8> = Vec::new();
    append_bytes(&mut framed, nonce.as_slice());
    append_bytes(&mut framed, ciphertext.as_slice());
    let line = b64_encode(framed.as_slice());
    proof {
        assert(framed@.subrange(0, NONCE_LEN as int) =~= nonce@);
        assert(framed@.subrange(NONCE_LEN as int, framed@.len() as int) =~= ciphertext@);
        assert(sealed_frame(key@, plaintext@, framed@));
        assert(line@ == b64_encode_spec(framed@));
        lemma_open_sealed(key@, plaintext@, line@);
    }
    Ok(line)
}

/// Open one sealed record.
///
/// `None` for anything that doesn't decrypt cleanly: a truncated line, a
/// record from a different identity, or a leftover plaintext line.
pub fn open(key: &[u8], line: &str) -> (r: Option<Vec<u8>>)
    ensures
        match r {
            Some(p) => open_spec(key@, line@) == Some(p@),
            None => open_spec(key@, line@) is None,
        },
{
    let t = trim(line);
    let framed = match b64_decode_str(t.as_str()) {
        Ok(f) => f,
        Err(_) => return None,
    };
    if framed.len() <= NONCE_LEN || key.len() != STORAGE_KEY_LEN {
        return None;
    }
    let (nonce, ciphertext) = framed.as_slice().split_at(NONCE_LEN);
    chacha_decrypt(key, nonce, ciphertext)
}

} // verus!
