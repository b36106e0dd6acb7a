//! Identity decisions: the KDF salt an identity unlocks with, the publish
//! block a settings update persists, the views shown to the UI and the
//! published-status verdict.

use vstd::prelude::*;
use crate::crypto::{b64_decode, b64_decode_str, b64_encode, b64_encode_spec, random_bytes};
use crate::error::{no_details, err, err_view, CommandError, ErrorView};
use crate::paths::{join_spec, path_join};
use crate::state::{IdentityConfig, IdentityIndex, PublishConfig};
use crate::text::{decimal, decimal_string, str_eq, trim, trim_seq};
use vstd::string::StringExecFns;

verus! {

/// Length of the per-identity Argon2id salt minted on first creation.
pub const KDF_SALT_BYTES: usize = 32;

/// File name of the auto-materialised TSIG secret.
pub const TSIG_SECRET_FILE: &'static str = "tsig.key";

/// Snapshot of the unlocked identity returned to the UI.
#[derive(Debug, Clone)]
pub struct IdentityInfo {
    pub username: String,
    pub domain: String,
    pub user_id_hex: String,
    pub x25519_public_key_hex: String,
    pub ed25519_signing_public_key_hex: String,
    pub publish_configured: bool,
}

/// Arguments of `init_or_unlock`.
#[derive(Debug, Clone)]
pub struct InitOrUnlockArgs {
    pub username: String,
    pub passphrase: String,
    /// Mesh zone; required the first time a username is seen.
    pub domain: Option<String>,
}

/// Arguments of `refresh_prekeys`.
#[derive(Debug, Clone)]
pub struct RefreshPrekeysArgs {
    /// How many prekeys to generate.
    pub count: u32,
    /// TTL per published prekey TXT in seconds; zero means the SDK default.
    pub ttl_seconds: u64,
}

/// Result of `refresh_prekeys`.
#[derive(Debug, Clone)]
pub struct RefreshPrekeysResult {
    pub published: u32,
}

/// One row of `list_identities`.
#[derive(Debug, Clone)]
pub struct IdentitySummary {
    pub username: String,
    pub domain: String,
    /// Whether this identity is the one unlocked in memory.
    pub is_active: bool,
}

/// Per-identity config as the Settings page shows it.
#[derive(Debug, Clone)]
pub struct IdentityConfigView {
    pub username: String,
    pub publish: Option<PublishConfigView>,
    pub resolvers: Vec<String>,
}

/// A publish block as the Settings page shows it.
#[derive(Debug, Clone)]
pub struct PublishConfigView {
    pub zone: String,
    pub server: String,
    pub tsig_key_name: String,
    pub tsig_algorithm: String,
    pub tsig_secret_path: String,
}

/// Arguments of `update_publish_config`.
#[derive(Debug, Clone)]
pub struct UpdatePublishArgs {
    pub username: String,
    /// `None` removes the publish block.
    pub publish: Option<PublishConfigInput>,
    pub resolvers: Option<Vec<String>>,
}

/// A publish block as the Settings page submits it.
#[derive(Debug, Clone)]
pub struct PublishConfigInput {
    pub zone: String,
    pub server: String,
    pub tsig_key_name: String,
    pub tsig_algorithm: String,
    /// Path to the on-disk secret; when empty the secret comes inline.
    pub tsig_secret_path: String,
    /// Raw secret as base64; when present it is written to the identity's
    /// `tsig.key`.
    pub tsig_secret_base64: Option<String>,
}

/// Whether the active identity's record is live in DNS.
#[derive(Debug, Clone)]
pub enum PublishedStatus {
    Published,
    NotPublished,
    Unknown { reason: String },
}

/// Arguments of `switch_identity`.
#[derive(Debug, Clone)]
pub struct SwitchIdentityArgs {
    pub username: String,
    pub passphrase: String,
}

/// How a lookup of the identity's own record ended.
#[derive(Debug, Clone)]
pub enum IdentityLookup {
    /// A verified record was found.
    Found,
    /// No record exists at the name.
    NoRecord,
    /// The lookup failed otherwise; the text says why.
    Failed(String),
}

/// How many prekeys `refresh_prekeys` generates when not told.
pub fn default_prekey_count() -> (n: u32)
    ensures
        n == 50,
{
    50
}

/// The TSIG algorithm a publish input names when it names none.
pub fn default_tsig_algo() -> (r: String)
    ensures
        r@ == "hmac-sha256"@,
{
    String::from_str("hmac-sha256")
}

/// Refuse an empty passphrase.
pub fn check_passphrase(passphrase: &str) -> (r: Result<(), CommandError>)
    ensures
        no_details(r),
        r is Ok <==> passphrase@.len() > 0,
        r matches Err(e) ==> err_view(e) == ("validation"@, "passphrase must not be empty"@),
{
    if passphrase.is_empty() {
        return Err(err("validation", String::from_str("passphrase must not be empty")));
    }
    Ok(())
}

/// The first bytes of a plaintext SQLite database: `SQLite format 3\0`.
pub open spec fn sqlite_magic() -> Seq<u8> {
    seq![0x53u8, 0x51, 0x4c, 0x69, 0x74, 0x65, 0x20, 0x66, 0x6f, 0x72, 0x6d, 0x61, 0x74, 0x20, 0x33, 0x00]
}

/// Whether a database file beginning with `head` is a plaintext SQLite
/// database, written before at-rest encryption.
pub open spec fn is_plaintext_db(head: Seq<u8>) -> bool {
    head.len() >= 16 && head.take(16) == sqlite_magic()
}

/// The message refusing a database written before at-rest encryption.
pub open spec fn legacy_db_message(u: Seq<char>) -> Seq<char> {
    "the database of `"@ + u
        + "` is unencrypted (written before at-rest encryption); re-create this identity"@
}

/// Refuse to unlock over a database written before at-rest encryption:
/// its own error kind, so it is not blamed on the passphrase. `db_head`
/// is the start of the database file, empty when there is none.
pub fn check_database_encrypted(username: &str, db_head: &[u8]) -> (r: Result<(), CommandError>)
    ensures
        no_details(r),
        r is Err <==> is_plaintext_db(db_head@),
        r matches Err(e) ==> err_view(e) == ("legacy_plaintext_db"@, legacy_db_message(username@)),
{
    let magic: [u8; 16] = [
        0x53u8,
        0x51,
        0x4c,
        0x69,
        0x74,
        0x65,
        0x20,
        0x66,
        0x6f,
        0x72,
        0x6d,
        0x61,
        0x74,
        0x20,
        0x33,
        0x00,
    ];
    proof {
        assert(magic@ =~= sqlite_magic());
    }
    if db_head.len() < 16 {
        return Ok(());
    }
    let mut i: usize = 0;
    while i < 16
        invariant
            i <= 16,
            db_head@.len() >= 16,
            magic@ == sqlite_magic(),
            forall|k: int| 0 <= k < i ==> db_head@[k] == magic@[k],
        decreases 16 - i,
    {
        if db_head[i] != magic[i] {
            assert(db_head@.take(16)[i as int] != sqlite_magic()[i as int]);
            return Ok(());
        }
        i = i + 1;
    }
    assert(db_head@.take(16) =~= sqlite_magic());
    let mut m = String::from_str("the database of `");
    m.append(username);
    m.append("` is unencrypted (written before at-rest encryption); re-create this identity");
    Err(err("legacy_plaintext_db", m))
}

/// The message asking to confirm before a verifier is pinned.
pub open spec fn unpinned_message(u: Seq<char>) -> Seq<char> {
    "identity `"@ + u
        + "` has no pinned verifier; confirm to pin the key this passphrase derives"@
}

/// What the confirmation check decides: a refusal asking for confirmation
/// when an existing identity has no pinned verifier and none was given.
pub open spec fn verifier_gate_spec(u: Seq<char>, pinned: Option<Seq<char>>, db_exists: bool, confirm_pin: bool) -> Result<
    (),
    ErrorView,
> {
    if pinned is None && db_exists && !confirm_pin {
        Err(("verifier_unpinned"@, unpinned_message(u)))
    } else {
        Ok(())
    }
}

/// Before an existing identity without a pinned verifier is opened, ask
/// for confirmation: a mistyped passphrase would otherwise be pinned.
pub fn check_verifier_gate(username: &str, pinned: Option<&str>, db_exists: bool, confirm_pin: bool) -> (r: Result<
    (),
    CommandError,
>)
    ensures
        no_details(r),
        r is Err <==> (pinned is None && db_exists && !confirm_pin),
        r matches Err(e) ==> err_view(e) == ("verifier_unpinned"@, unpinned_message(username@)),
        match r {
            Ok(()) => verifier_gate_spec(username@, crate::index::opt_view(pinned), db_exists, confirm_pin)
                == Ok::<(), ErrorView>(()),
            Err(e) => verifier_gate_spec(username@, crate::index::opt_view(pinned), db_exists, confirm_pin)
                == Err::<(), ErrorView>(err_view(e)),
        },
{
    if pinned.is_none() && db_exists && !confirm_pin {
        let mut m = String::from_str("identity `");
        m.append(username);
        m.append("` has no pinned verifier; confirm to pin the key this passphrase derives");
        return Err(err("verifier_unpinned", m));
    }
    Ok(())
}

/// The message refusing a passphrase that derives another key.
pub open spec fn wrong_passphrase_message(u: Seq<char>) -> Seq<char> {
    "the passphrase does not open identity `"@ + u + "`"@
}

/// What holding a derived signing key against the pinned verifier
/// decides: with a verifier, the key must be it (and nothing is pinned);
/// without one, the key is to be pinned once the identity opens.
pub open spec fn derived_key_spec(u: Seq<char>, pinned: Option<Seq<char>>, derived: Seq<char>) -> Result<
    bool,
    ErrorView,
> {
    match pinned {
        Some(p) => if p == derived {
            Ok(false)
        } else {
            Err(("wrong_passphrase"@, wrong_passphrase_message(u)))
        },
        None => Ok(true),
    }
}

/// Hold the signing key a passphrase derives against the pinned
/// verifier: a mismatch is a wrong passphrase. Returns whether the key
/// is to be pinned once the identity opens (no verifier yet).
pub fn check_derived_key(username: &str, pinned: Option<&str>, derived_spk_hex: &str) -> (r: Result<
    bool,
    CommandError,
>)
    ensures
        no_details(r),
        match r {
            Ok(pin) => derived_key_spec(username@, crate::index::opt_view(pinned), derived_spk_hex@)
                == Ok::<bool, ErrorView>(pin),
            Err(e) => derived_key_spec(username@, crate::index::opt_view(pinned), derived_spk_hex@)
                == Err::<bool, ErrorView>(err_view(e)),
        },
{
    match pinned {
        Some(p) => {
            if str_eq(p, derived_spk_hex) {
                Ok(false)
            } else {
                let mut m = String::from_str("the passphrase does not open identity `");
                m.append(username);
                m.append("`");
                Err(err("wrong_passphrase", m))
            }
        },
        None => Ok(true),
    }
}

/// An identity with no pinned key and no database is not asked for
/// confirmation, and the key of its passphrase is to be pinned. Once a
/// key is pinned, no unlock is asked for confirmation, a different key is
/// refused as `wrong_passphrase`, and the pinned key opens it without
/// pinning again.
pub proof fn law_pinned_key_refuses_other_passphrases(
    u: Seq<char>,
    created_key: Seq<char>,
    later_key: Seq<char>,
    db_exists: bool,
    confirm_pin: bool,
)
    ensures
        verifier_gate_spec(u, None, false, confirm_pin) == Ok::<(), ErrorView>(()),
        derived_key_spec(u, None, created_key) == Ok::<bool, ErrorView>(true),
        verifier_gate_spec(u, Some(created_key), db_exists, confirm_pin) == Ok::<(), ErrorView>(()),
        later_key != created_key ==> derived_key_spec(u, Some(created_key), later_key) == Err::<
            bool,
            ErrorView,
        >(("wrong_passphrase"@, wrong_passphrase_message(u))),
        derived_key_spec(u, Some(created_key), created_key) == Ok::<bool, ErrorView>(false),
{
}

/// A config with `spk_hex` pinned as the verifier; everything else kept.
pub fn pin_verifier(cfg: &mut IdentityConfig, spk_hex: String)
    ensures
        final(cfg).verifier_spk_hex == Some(spk_hex),
        final(cfg).resolvers == old(cfg).resolvers,
        final(cfg).publish == old(cfg).publish,
        final(cfg).kdf_salt_base64 == old(cfg).kdf_salt_base64,
        final(cfg).claim_via == old(cfg).claim_via,
{
    cfg.verifier_spk_hex = Some(spk_hex);
}

/// Refuse a publishing command when no publish block is wired.
pub fn require_publish(publish_configured: bool) -> (r: Result<(), CommandError>)
    ensures
        no_details(r),
        r is Ok <==> publish_configured,
        r matches Err(e) ==> err_view(e) == (
            "publish_unconfigured"@,
            "no publish (TSIG) block configured for this identity"@,
        ),
{
    if !publish_configured {
        return Err(
            err(
                "publish_unconfigured",
                String::from_str("no publish (TSIG) block configured for this identity"),
            ),
        );
    }
    Ok(())
}

/// `user@domain`.
pub fn self_address(username: &str, domain: &str) -> (r: String)
    ensures
        r@ == username@ + "@"@ + domain@,
{
    let mut r = String::from_str(username);
    r.append("@");
    r.append(domain);
    r
}

/// The status for a lookup of the identity's own record: found means
/// published, no record means not published, any other failure is
/// unknown with its reason.
pub fn published_status(lookup: IdentityLookup) -> (s: PublishedStatus)
    ensures
        match lookup {
            IdentityLookup::Found => s is Published,
            IdentityLookup::NoRecord => s is NotPublished,
            IdentityLookup::Failed(reason) => s matches PublishedStatus::Unknown { reason: r }
                && r@ == reason@,
        },
{
    match lookup {
        IdentityLookup::Found => PublishedStatus::Published,
        IdentityLookup::NoRecord => PublishedStatus::NotPublished,
        IdentityLookup::Failed(reason) => PublishedStatus::Unknown { reason },
    }
}

/// One summary row per index entry, in index order; a row is active
/// exactly when its username is the identity unlocked in memory.
pub fn summaries(index: &IdentityIndex, active: Option<&str>) -> (r: Vec<IdentitySummary>)
    ensures
        r@.len() == index.identities@.len(),
        forall|i: int|
            0 <= i < r@.len() ==> {
                &&& (#[trigger] r@[i]).username@ == index.identities@[i].username@
                &&& r@[i].domain@ == index.identities@[i].domain@
                &&& r@[i].is_active == (active matches Some(a) && a@ == index.identities@[i].username@)
            },
{
    let mut out: Vec<IdentitySummary> = Vec::new();
    let mut i: usize = 0;
    while i < index.identities.len()
        invariant
            i <= index.identities@.len(),
            out@.len() == i,
            forall|k: int|
                0 <= k < i ==> {
                    &&& (#[trigger] out@[k]).username@ == index.identities@[k].username@
                    &&& out@[k].domain@ == index.identities@[k].domain@
                    &&& out@[k].is_active == (active matches Some(a) && a@
                        == index.identities@[k].username@)
                },
        decreases index.identities@.len() - i,
    {
        let e = &index.identities[i];
        let is_active = match active {
            Some(a) => crate::text::str_eq(e.username.as_str(), a),
            None => false,
        };
        out.push(
            IdentitySummary {
                username: e.username.clone(),
                domain: e.domain.clone(),
                is_active,
            },
        );
        i = i + 1;
    }
    out
}

/// The publish block as the Settings page shows it.
pub fn publish_view(p: PublishConfig) -> (v: PublishConfigView)
    ensures
        v.zone@ == p.zone@,
        v.server@ == p.server@,
        v.tsig_key_name@ == p.tsig_key_name@,
        v.tsig_algorithm@ == p.tsig_algorithm@,
        v.tsig_secret_path@ == p.tsig_secret_path@,
{
    PublishConfigView {
        zone: p.zone,
        server: p.server,
        tsig_key_name: p.tsig_key_name,
        tsig_algorithm: p.tsig_algorithm,
        tsig_secret_path: p.tsig_secret_path,
    }
}

/// The config of `username` as the Settings page shows it: the publish
/// block if any, and the resolver list, empty when unset.
pub fn config_view(username: String, cfg: IdentityConfig) -> (v: IdentityConfigView)
    ensures
        v.username@ == username@,
        v.publish is Some <==> cfg.publish is Some,
        cfg.publish matches Some(p) ==> v.publish matches Some(q) && q.zone@ == p.zone@
            && q.server@ == p.server@ && q.tsig_key_name@ == p.tsig_key_name@
            && q.tsig_algorithm@ == p.tsig_algorithm@ && q.tsig_secret_path@ == p.tsig_secret_path@,
        v.resolvers@ == (match cfg.resolvers {
            Some(r) => r@,
            None => Seq::<String>::empty(),
        }),
{
    let publish = match cfg.publish {
        Some(p) => Some(publish_view(p)),
        None => None,
    };
    let resolvers = match cfg.resolvers {
        Some(r) => r,
        None => Vec::new(),
    };
    IdentityConfigView { username, publish, resolvers }
}

/// The config a settings update persists: the new resolvers and publish
/// block, with the KDF salt, claim-via zones and pinned verifier carried over
/// from the prior config. Clobbering the salt would lock the user out.
pub fn updated_config(
    prior: IdentityConfig,
    resolvers: Option<Vec<String>>,
    publish: Option<PublishConfig>,
) -> (cfg: IdentityConfig)
    ensures
        cfg.resolvers == resolvers,
        cfg.publish == publish,
        cfg.kdf_salt_base64 == prior.kdf_salt_base64,
        cfg.claim_via == prior.claim_via,
        cfg.verifier_spk_hex == prior.verifier_spk_hex,
{
    IdentityConfig {
        resolvers,
        publish,
        kdf_salt_base64: prior.kdf_salt_base64,
        claim_via: prior.claim_via,
        verifier_spk_hex: prior.verifier_spk_hex,
    }
}

/// A publish block to persist, and the secret file to write first when
/// the secret came inline: its path and its body.
#[derive(Debug, Clone)]
pub struct MaterialisedPublish {
    pub publish: PublishConfig,
    pub secret_file: Option<(String, String)>,
}

/// The `tsig_secret_path` the decision keeps, or the error: the given
/// path when no inline secret is set, else the identity's `tsig.key`
/// once the inline secret decodes; an error when neither is set.
pub open spec fn publish_path_spec(
    identity_dir: Seq<char>,
    path: Seq<char>,
    secret_b64: Option<Seq<char>>,
) -> Result<Seq<char>, ErrorView> {
    let p = trim_seq(path);
    let s = match secret_b64 {
        Some(b) => if trim_seq(b).len() > 0 {
            Some(trim_seq(b))
        } else {
            None
        },
        None => None,
    };
    match s {
        Some(b) => match b64_decode(b) {
            Ok(_) => Ok(join_spec(identity_dir, "tsig.key"@)),
            Err(e) => Err(("validation"@, "tsig_secret_base64 is not valid base64: "@ + e)),
        },
        None => if p.len() > 0 {
            Ok(p)
        } else {
            Err(
                (
                    "validation"@,
                    "publish.tsig_secret_path or publish.tsig_secret_base64 must be set"@,
                ),
            )
        },
    }
}

/// Where the TSIG secret goes: a non-blank inline secret `b` that
/// decodes always lands in the identity's own `tsig.key`, whatever path
/// was also submitted, and one that does not decode is refused; without
/// an inline secret (or with a blank one) the submitted path is kept,
/// trimmed, and a blank path is refused.
pub proof fn law_inline_secret_goes_to_identity_dir(identity_dir: Seq<char>, path: Seq<char>, b: Seq<char>)
    ensures
        trim_seq(b).len() > 0 && b64_decode(trim_seq(b)) is Ok ==> publish_path_spec(
            identity_dir,
            path,
            Some(b),
        ) == Ok::<Seq<char>, ErrorView>(join_spec(identity_dir, "tsig.key"@)),
        trim_seq(b).len() > 0 && b64_decode(trim_seq(b)) is Err ==> (publish_path_spec(
            identity_dir,
            path,
            Some(b),
        ) matches Err(e) && e.0 == "validation"@),
        trim_seq(path).len() > 0 ==> publish_path_spec(identity_dir, path, None) == Ok::<
            Seq<char>,
            ErrorView,
        >(trim_seq(path)),
        trim_seq(b).len() == 0 && trim_seq(path).len() > 0 ==> publish_path_spec(
            identity_dir,
            path,
            Some(b),
        ) == Ok::<Seq<char>, ErrorView>(trim_seq(path)),
        trim_seq(path).len() == 0 ==> publish_path_spec(identity_dir, path, None) is Err,
{
}

/// Decide the on-disk `tsig_secret_path` for a submitted publish block.
///
/// An inline base64 secret wins: it is validated before anything touches
/// the filesystem and is to be written, as `base64:<secret>`, to the
/// identity's `tsig.key`. Otherwise the given path is kept, trimmed.
pub fn materialise_publish_block(identity_dir: &str, input: PublishConfigInput) -> (r: Result<
    MaterialisedPublish,
    CommandError,
>)
    ensures
        no_details(r),
        match r {
            Ok(m) => {
                &&& publish_path_spec(
                    identity_dir@,
                    input.tsig_secret_path@,
                    match input.tsig_secret_base64 {
                        Some(b) => Some(b@),
                        None => None,
                    },
                ) == Ok::<Seq<char>, ErrorView>(m.publish.tsig_secret_path@)
                &&& m.publish.zone == input.zone
                &&& m.publish.server == input.server
                &&& m.publish.tsig_key_name == input.tsig_key_name
                &&& m.publish.tsig_algorithm == input.tsig_algorithm
                &&& (m.secret_file is Some <==> (input.tsig_secret_base64 matches Some(b) && trim_seq(
                    b@,
                ).len() > 0))
                &&& match m.secret_file {
                    Some(f) => f.0@ == m.publish.tsig_secret_path@ && (input.tsig_secret_base64 matches Some(b)
                        && f.1@ == "base64:"@ + trim_seq(b@)),
                    None => m.publish.tsig_secret_path@ == trim_seq(input.tsig_secret_path@),
                }
            },
            Err(e) => publish_path_spec(
                identity_dir@,
                input.tsig_secret_path@,
                match input.tsig_secret_base64 {
                    Some(b) => Some(b@),
                    None => None,
                },
            ) == Err::<Seq<char>, ErrorView>(err_view(e)),
        },
{
    let path = trim(input.tsig_secret_path.as_str());
    let secret: Option<String> = match &input.tsig_secret_base64 {
        Some(b) => {
            let t = trim(b.as_str());
            if t.as_str().is_empty() {
                None
            } else {
                Some(t)
            }
        },
        None => None,
    };
    match secret {
        Some(b64) => {
            match b64_decode_str(b64.as_str()) {
                Ok(_) => {},
                Err(e) => {
                    let mut m = String::from_str("tsig_secret_base64 is not valid base64: ");
                    m.append(e.as_str());
                    return Err(err("validation", m));
                },
            }
            let target = path_join(identity_dir, TSIG_SECRET_FILE);
            let mut body = String::from_str("base64:");
            body.append(b64.as_str());
            let publish = PublishConfig {
                zone: input.zone,
                server: input.server,
                tsig_key_name: input.tsig_key_name,
                tsig_algorithm: input.tsig_algorithm,
                tsig_secret_path: target.clone(),
            };
            Ok(MaterialisedPublish { publish, secret_file: Some((target, body)) })
        },
        None => {
            if path.as_str().is_empty() {
                return Err(
                    err(
                        "validation",
                        String::from_str(
                            "publish.tsig_secret_path or publish.tsig_secret_base64 must be set",
                        ),
                    ),
                );
            }
            let publish = PublishConfig {
                zone: input.zone,
                server: input.server,
                tsig_key_name: input.tsig_key_name,
                tsig_algorithm: input.tsig_algorithm,
                tsig_secret_path: path,
            };
            Ok(MaterialisedPublish { publish, secret_file: None })
        },
    }
}

/// The salt an unlock derives with, for a config that records one, or
/// the error refusing it.
pub open spec fn recorded_salt_spec(username: Seq<char>, b64: Seq<char>) -> Result<Seq<u8>, ErrorView> {
    match b64_decode(b64) {
        Err(e) => Err(
            ("io"@, "kdf_salt_base64 in "@ + username + "/config.yaml is malformed: "@ + e),
        ),
        Ok(bytes) => if bytes.len() < 8 {
            Err(
                (
                    "io"@,
                    "kdf_salt_base64 in "@ + username + "/config.yaml decodes to "@ + decimal(
                        bytes.len(),
                    ) + " bytes; need at least 8"@,
                ),
            )
        } else {
            Ok(bytes)
        },
    }
}

/// The salt an unlock derives with, and whether the config changed and
/// must be saved.
#[derive(Debug, Clone)]
pub struct KdfSalt {
    pub salt: Vec<u8>,
    pub save: bool,
}

/// Read or mint the per-identity KDF salt.
///
/// A recorded salt is decoded and must hold at least 8 bytes. With none
/// recorded, a legacy identity (its database exists) is pinned to the
/// SDK's default salt and a fresh one gets 32 random bytes; either way
/// the salt is recorded in the config, which must then be saved.
pub fn ensure_kdf_salt(
    cfg: &mut IdentityConfig,
    username: &str,
    db_exists: bool,
    sdk_default_salt: &[u8],
) -> (r: Result<KdfSalt, CommandError>)
    ensures
        no_details(r),
        match old(cfg).kdf_salt_base64 {
            Some(b64) => {
                &&& *final(cfg) == *old(cfg)
                &&& match r {
                    Ok(k) => !k.save && recorded_salt_spec(username@, b64@) == Ok::<
                        Seq<u8>,
                        ErrorView,
                    >(k.salt@),
                    Err(e) => recorded_salt_spec(username@, b64@) == Err::<Seq<u8>, ErrorView>(
                        err_view(e),
                    ),
                }
            },
            None => r matches Ok(k) && {
                &&& k.save
                &&& db_exists ==> k.salt@ == sdk_default_salt@
                &&& !db_exists ==> k.salt@.len() == 32
                &&& final(cfg).kdf_salt_base64 matches Some(s) && s@ == b64_encode_spec(k.salt@)
                    && b64_decode(s@) == Ok::<Seq<u8>, Seq<char>>(k.salt@)
                &&& final(cfg).resolvers == old(cfg).resolvers
                &&& final(cfg).publish == old(cfg).publish
                &&& final(cfg).claim_via == old(cfg).claim_via
                &&& final(cfg).verifier_spk_hex == old(cfg).verifier_spk_hex
            },
        },
{
    if let Some(b64) = &cfg.kdf_salt_base64 {
        let bytes = match b64_decode_str(b64.as_str()) {
            Ok(b) => b,
            Err(e) => {
                let mut m = String::from_str("kdf_salt_base64 in ");
                m.append(username);
                m.append("/config.yaml is malformed: ");
                m.append(e.as_str());
                return Err(err("io", m));
            },
        };
        if bytes.len() < 8 {
            let mut m = String::from_str("kdf_salt_base64 in ");
            m.append(username);
            m.append("/config.yaml decodes to ");
            let n = decimal_string(bytes.len() as u128);
            m.append(n.as_str());
            m.append(" bytes; need at least 8");
            return Err(err("io", m));
        }
        return Ok(KdfSalt { salt: bytes, save: false });
    }
    let bytes = if db_exists {
        slice_to_vec(sdk_default_salt)
    } else {
        random_bytes(KDF_SALT_BYTES)
    };
    let encoded = b64_encode(bytes.as_slice());
    cfg.kdf_salt_base64 = Some(encoded);
    Ok(KdfSalt { salt: bytes, save: true })
}

/// Once a salt is recorded, every later unlock reads back that same salt
/// and changes nothing: the same passphrase keeps deriving the same keys.
pub proof fn law_recorded_salt_is_stable(username: Seq<char>, recorded: Seq<char>, salt: Seq<u8>)
    requires
        b64_decode(recorded) == Ok::<Seq<u8>, Seq<char>>(salt),
        salt.len() >= 8,
    ensures
        recorded_salt_spec(username, recorded) == Ok::<Seq<u8>, ErrorView>(salt),
{
}

/// A copy of `s`.
pub(crate) fn slice_to_vec(s: &[u8]) -> (v: Vec<u8>)
    ensures
        v@ == s@,
{
    let mut v: Vec<u8> = Vec::new();
    crate::bytes::append_bytes(&mut v, s);
    v
}

} // verus!
