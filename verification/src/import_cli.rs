//! Importing an identity from the dnsmesh CLI's flat layout
//! (`config.yaml`, `dmp-rs.sqlite`, optional `tsig.key` in one
//! directory): validating its config, choosing the name, and translating
//! its publish block and hex KDF salt.

use vstd::prelude::*;
use crate::crypto::{b64_encode, b64_encode_spec};
use crate::error::{no_details, err, err_view, CommandError, ErrorView};
use crate::hexcodec::{hex_bytes, hex_decode, hex_error_text, hex_valid};
use crate::state::{IdentityConfig, PublishConfig};
use crate::text::{decimal, decimal_string, trim, trim_seq};
use crate::username::{sanitize_spec, sanitize_username};
use vstd::string::StringExecFns;

verus! {

/// The slice of the CLI's `config.yaml` the desktop consumes.
#[derive(Debug, Clone)]
pub struct CliConfigFile {
    pub username: String,
    pub domain: String,
    pub resolvers: Option<Vec<String>>,
    pub publish: Option<CliPublishConfig>,
    /// Hex-encoded Argon2id salt.
    pub kdf_salt: Option<String>,
}

/// The CLI's publish block.
#[derive(Debug, Clone)]
pub struct CliPublishConfig {
    pub zone: String,
    pub server: String,
    pub tsig_key_name: String,
    pub tsig_algorithm: String,
    /// Always rewritten on import.
    pub tsig_secret_path: String,
}

/// Arguments of `import_from_cli`.
#[derive(Debug, Clone)]
pub struct ImportFromCliArgs {
    /// Directory holding the CLI layout; `None` resolves to
    /// `$DMP_CONFIG_HOME`, then `$HOME/.dmp`.
    pub source_dir: Option<String>,
    /// Import under this name instead of the CLI's.
    pub override_username: Option<String>,
}

/// Result of a successful import.
#[derive(Debug, Clone)]
pub struct ImportFromCliResult {
    pub username: String,
    pub domain: String,
    /// Whether a `tsig.key` was carried over.
    pub publish_imported: bool,
}

/// Refuse a CLI config with a blank username or domain.
pub fn check_cli_config(cli: &CliConfigFile) -> (r: Result<(), CommandError>)
    ensures
        no_details(r),
        r is Ok <==> (trim_seq(cli.username@).len() > 0 && trim_seq(cli.domain@).len() > 0),
        r matches Err(e) ==> err_view(e) == (if trim_seq(cli.username@).len() == 0 {
            ("validation"@, "imported config.yaml has empty `username`"@)
        } else {
            ("validation"@, "imported config.yaml has empty `domain`"@)
        }),
{
    let u = trim(cli.username.as_str());
    if u.as_str().is_empty() {
        return Err(err("validation", String::from_str("imported config.yaml has empty `username`")));
    }
    let d = trim(cli.domain.as_str());
    if d.as_str().is_empty() {
        return Err(err("validation", String::from_str("imported config.yaml has empty `domain`")));
    }
    Ok(())
}

/// The name a CLI import lands under: the override, trimmed, when not
/// blank, else the CLI's username, trimmed; it must be a valid username.
pub fn cli_import_name(override_username: Option<&str>, cli_username: &str) -> (r: Result<
    String,
    CommandError,
>)
    ensures
        no_details(r),
        match r {
            Ok(n) => sanitize_spec(
                crate::backup::requested_name(crate::index::opt_view(override_username), cli_username@),
            ) == Ok::<Seq<char>, Seq<char>>(n@),
            Err(e) => e.kind@ == "validation"@ && sanitize_spec(
                crate::backup::requested_name(crate::index::opt_view(override_username), cli_username@),
            ) == Err::<Seq<char>, Seq<char>>(e.message@),
        },
{
    let requested = match override_username {
        Some(o) => {
            let t = trim(o);
            if t.as_str().is_empty() {
                trim(cli_username)
            } else {
                t
            }
        },
        None => trim(cli_username),
    };
    sanitize_username(requested.as_str())
}

/// Translate a CLI publish block, pointing its secret at the copied
/// `tsig.key`.
pub fn rewrite_publish(cli: CliPublishConfig, dest_tsig: String) -> (p: PublishConfig)
    ensures
        p.zone == cli.zone,
        p.server == cli.server,
        p.tsig_key_name == cli.tsig_key_name,
        p.tsig_algorithm == cli.tsig_algorithm,
        p.tsig_secret_path == dest_tsig,
{
    PublishConfig {
        zone: cli.zone,
        server: cli.server,
        tsig_key_name: cli.tsig_key_name,
        tsig_algorithm: cli.tsig_algorithm,
        tsig_secret_path: dest_tsig,
    }
}

/// The publish block an import persists: the CLI's, rewritten, when its
/// `tsig.key` was copied; none when the CLI had none; an error when the
/// CLI names a publish block but no secret came with it.
pub fn cli_publish(
    publish: Option<CliPublishConfig>,
    publish_imported: bool,
    dest_tsig: String,
    src_tsig: &str,
) -> (r: Result<Option<PublishConfig>, CommandError>)
    ensures
        no_details(r),
        r is Err <==> (publish is Some && !publish_imported),
        r matches Err(e) ==> err_view(e) == (
            "validation"@,
            "config.yaml has a publish block but no tsig.key was found at "@ + src_tsig@,
        ),
        r matches Ok(p) ==> match publish {
            Some(c) => p matches Some(q) && q.zone == c.zone && q.server == c.server
                && q.tsig_key_name == c.tsig_key_name && q.tsig_algorithm == c.tsig_algorithm
                && q.tsig_secret_path == dest_tsig,
            None => p is None,
        },
{
    match publish {
        Some(c) => {
            if publish_imported {
                Ok(Some(rewrite_publish(c, dest_tsig)))
            } else {
                let mut m = String::from_str(
                    "config.yaml has a publish block but no tsig.key was found at ",
                );
                m.append(src_tsig);
                Err(err("validation", m))
            }
        },
        None => Ok(None),
    }
}

/// What the CLI's hex `kdf_salt` becomes: none when absent or blank,
/// its bytes in base64 when it is hex of at least 8 bytes, else the
/// error refusing it.
pub open spec fn kdf_salt_spec(kdf_salt: Option<Seq<char>>) -> Result<Option<Seq<char>>, ErrorView> {
    match kdf_salt {
        None => Ok(None),
        Some(s) => {
            let t = trim_seq(s);
            if t.len() == 0 {
                Ok(None)
            } else {
                let data = vstd::utf8::encode_utf8(t);
                if !hex_valid(data) {
                    Err(
                        (
                            "validation"@,
                            "imported config.yaml has invalid kdf_salt hex: "@ + hex_error_text(data),
                        ),
                    )
                } else if hex_bytes(data).len() < 8 {
                    Err(
                        (
                            "validation"@,
                            "imported config.yaml's kdf_salt decodes to "@ + decimal(
                                hex_bytes(data).len(),
                            ) + " bytes; need at least 8"@,
                        ),
                    )
                } else {
                    Ok(Some(b64_encode_spec(hex_bytes(data))))
                }
            }
        },
    }
}

/// Re-encode the CLI's hex `kdf_salt` as base64.
pub fn kdf_salt_to_base64(kdf_salt: Option<&str>) -> (r: Result<Option<String>, CommandError>)
    ensures
        no_details(r),
        match r {
            Ok(v) => kdf_salt_spec(crate::index::opt_view(kdf_salt)) == Ok::<
                Option<Seq<char>>,
                ErrorView,
            >(
                match v {
                    Some(s) => Some(s@),
                    None => None,
                },
            ),
            Err(e) => kdf_salt_spec(crate::index::opt_view(kdf_salt)) == Err::<
                Option<Seq<char>>,
                ErrorView,
            >(err_view(e)),
        },
{
    let s = match kdf_salt {
        Some(s) => s,
        None => return Ok(None),
    };
    let t = trim(s);
    if t.as_str().is_empty() {
        return Ok(None);
    }
    let bytes = match hex_decode(t.as_str()) {
        Ok(b) => b,
        Err(e) => {
            let mut m = String::from_str("imported config.yaml has invalid kdf_salt hex: ");
            m.append(e.as_str());
            return Err(err("validation", m));
        },
    };
    if bytes.len() < 8 {
        let mut m = String::from_str("imported config.yaml's kdf_salt decodes to ");
        let n = decimal_string(bytes.len() as u128);
        m.append(n.as_str());
        m.append(" bytes; need at least 8");
        return Err(err("validation", m));
    }
    Ok(Some(b64_encode(bytes.as_slice())))
}

/// The config an import persists: the CLI's resolvers, the translated
/// publish block and salt, no claim-via zones and no pinned verifier:
/// the first unlock asks before pinning one.
pub fn cli_identity_config(
    resolvers: Option<Vec<String>>,
    publish: Option<PublishConfig>,
    kdf_salt_base64: Option<String>,
) -> (cfg: IdentityConfig)
    ensures
        cfg.resolvers == resolvers,
        cfg.publish == publish,
        cfg.kdf_salt_base64 == kdf_salt_base64,
        cfg.claim_via is None,
        cfg.verifier_spk_hex is None,
{
    IdentityConfig { resolvers, publish, kdf_salt_base64, claim_via: None, verifier_spk_hex: None }
}

} // verus!
