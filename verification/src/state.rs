//! The on-disk model of the identities root: the index listing every
//! identity, each identity's config, and where each file lives.
//!
//! Each identity owns `<root>/<username>/` holding `dmp-rs.sqlite` and
//! `config.yaml`; `<root>/index.yaml` lists the identities and names the
//! most recently active one. Secrets are never stored in the index.

use vstd::prelude::*;
use crate::paths::{join_spec, path_join};
use vstd::string::StringExecFns;

verus! {

/// File name used for each identity's config.
pub const IDENTITY_CONFIG_FILE: &'static str = "config.yaml";

/// File name of the top-level index.
pub const INDEX_FILE: &'static str = "index.yaml";

/// File name of each identity's database.
pub const DB_FILE: &'static str = "dmp-rs.sqlite";

/// On-disk shape of `index.yaml`.
#[derive(Debug, Clone)]
pub struct IdentityIndex {
    /// Username of the most recently active identity, if any.
    pub active: Option<String>,
    /// Every identity known, in registration order.
    pub identities: Vec<IdentityIndexEntry>,
}

/// One row of the [`IdentityIndex`].
#[derive(Debug, Clone)]
pub struct IdentityIndexEntry {
    pub username: String,
    pub domain: String,
}

/// On-disk shape of each identity's `config.yaml`: publish settings,
/// resolver overrides, the KDF salt and the claim-via zones.
#[derive(Debug, Clone)]
pub struct IdentityConfig {
    pub resolvers: Option<Vec<String>>,
    pub publish: Option<PublishConfig>,
    /// Per-identity Argon2id salt, base64-encoded.
    pub kdf_salt_base64: Option<String>,
    /// Cross-zone claim discovery zones.
    pub claim_via: Option<Vec<String>>,
    /// The identity's Ed25519 signing key, hex, pinned at creation: an
    /// unlock whose passphrase derives another key is refused.
    pub verifier_spk_hex: Option<String>,
}

/// TSIG-signed publish destination.
#[derive(Debug, Clone)]
pub struct PublishConfig {
    pub zone: String,
    /// `host:port` of the authoritative server.
    pub server: String,
    pub tsig_key_name: String,
    pub tsig_algorithm: String,
    /// Path to a file holding the TSIG secret.
    pub tsig_secret_path: String,
}

/// An entry as a pair of strings: username and domain.
pub open spec fn entry_view(e: IdentityIndexEntry) -> (Seq<char>, Seq<char>) {
    (e.username@, e.domain@)
}

impl IdentityIndex {
    /// The entries as (username, domain) pairs.
    pub open spec fn entries(&self) -> Seq<(Seq<char>, Seq<char>)> {
        self.identities@.map_values(|e: IdentityIndexEntry| entry_view(e))
    }

    /// The usernames, in order.
    pub open spec fn usernames(&self) -> Seq<Seq<char>> {
        self.identities@.map_values(|e: IdentityIndexEntry| e.username@)
    }

    /// The active username, as a string.
    pub open spec fn active_name(&self) -> Option<Seq<char>> {
        match self.active {
            Some(a) => Some(a@),
            None => None,
        }
    }
}

impl IdentityConfig {
    /// The empty config: nothing configured.
    pub open spec fn is_empty(&self) -> bool {
        &&& self.resolvers is None
        &&& self.publish is None
        &&& self.kdf_salt_base64 is None
        &&& self.claim_via is None
        &&& self.verifier_spk_hex is None
    }
}

impl Default for IdentityIndex {
    fn default() -> (r: Self)
        ensures
            r.active is None,
            r.identities@.len() == 0,
    {
        IdentityIndex { active: None, identities: Vec::new() }
    }
}

impl Default for IdentityConfig {
    fn default() -> (r: Self)
        ensures
            r.is_empty(),
    {
        IdentityConfig {
            resolvers: None,
            publish: None,
            kdf_salt_base64: None,
            claim_via: None,
            verifier_spk_hex: None,
        }
    }
}

/// The TSIG algorithm a publish block names when it names none.
pub fn default_tsig_algorithm() -> (r: String)
    ensures
        r@ == "hmac-sha256"@,
{
    String::from_str("hmac-sha256")
}

/// Path of the index under `root`.
pub fn index_path(root: &str) -> (r: String)
    ensures
        r@ == join_spec(root@, "index.yaml"@),
{
    path_join(root, INDEX_FILE)
}

/// Directory of `username` under `root`.
pub fn identity_dir(root: &str, username: &str) -> (r: String)
    ensures
        r@ == join_spec(root@, username@),
{
    path_join(root, username)
}

/// Database path of `username` under `root`.
pub fn identity_db_path(root: &str, username: &str) -> (r: String)
    ensures
        r@ == join_spec(join_spec(root@, username@), "dmp-rs.sqlite"@),
{
    let dir = identity_dir(root, username);
    path_join(dir.as_str(), DB_FILE)
}

/// Config path of `username` under `root`.
pub fn identity_config_path(root: &str, username: &str) -> (r: String)
    ensures
        r@ == join_spec(join_spec(root@, username@), "config.yaml"@),
{
    let dir = identity_dir(root, username);
    path_join(dir.as_str(), IDENTITY_CONFIG_FILE)
}

} // verus!
