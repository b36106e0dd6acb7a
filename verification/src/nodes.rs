//! Resolver and node diagnostics: which resolvers are in effect, the
//! doctor checklist, node discovery and the curated/directory node list,
//! and the TSIG registration handshake's validation and payloads.

use vstd::prelude::*;
use crate::bytes::append_bytes;
use crate::crypto::{b64_decode, b64_decode_str, b64_encode, b64_encode_spec};
use crate::error::{no_details, err, err_view, CommandError, ErrorView};
use crate::hexcodec::{hex_bytes, hex_decode, hex_error_text, hex_valid};
use crate::inbox::strs;
use crate::text::{
    chars_of, find_char, find_str, find_sub, first_pos, has_prefix, last_pos, rfind_char,
    slice_string, starts_with, string_of, trim, trim_seq,
};
use vstd::string::StringExecFns;

verus! {

/// Owner prefix of a zone's heartbeat RRset: `_dnsmesh-heartbeat.<zone>`.
pub const HEARTBEAT_RRSET_PREFIX: &'static str = "_dnsmesh-heartbeat.";

/// Clock skew, in seconds, allowed when verifying heartbeats.
pub const DISCOVERY_TS_SKEW_SECONDS: u64 = 600;

/// Domain-separator byte closing the signed registration payload.
pub const REGISTRATION_PAYLOAD_VERSION: u8 = 0x01;

/// The heartbeat RRset name of `zone`.
pub fn heartbeat_rrset_name(zone: &str) -> (r: String)
    ensures
        r@ == "_dnsmesh-heartbeat."@ + zone@,
{
    let mut r = String::from_str(HEARTBEAT_RRSET_PREFIX);
    r.append(zone);
    r
}

/// One resolver as the UI lists it.
#[derive(Debug, Clone)]
pub struct ResolverInfo {
    pub address: String,
    pub operator: String,
}

/// The operator of a well-known public resolver address.
pub open spec fn operator_spec(ip: Seq<char>) -> Seq<char> {
    if ip == "8.8.8.8"@ || ip == "8.8.4.4"@ {
        "Google"@
    } else if ip == "1.1.1.1"@ || ip == "1.0.0.1"@ {
        "Cloudflare"@
    } else if ip == "9.9.9.9"@ || ip == "149.112.112.112"@ {
        "Quad9"@
    } else if ip == "208.67.222.222"@ || ip == "208.67.220.220"@ {
        "OpenDNS"@
    } else {
        "Unknown"@
    }
}

/// Name the operator of a resolver address.
pub fn operator_for(ip: &str) -> (r: String)
    ensures
        r@ == operator_spec(ip@),
{
    let is = |lit: &str| -> (b: bool)
        ensures
            b == (ip@ == lit@),
        { crate::text::str_eq(ip, lit) };
    if is("8.8.8.8") || is("8.8.4.4") {
        String::from_str("Google")
    } else if is("1.1.1.1") || is("1.0.0.1") {
        String::from_str("Cloudflare")
    } else if is("9.9.9.9") || is("149.112.112.112") {
        String::from_str("Quad9")
    } else if is("208.67.222.222") || is("208.67.220.220") {
        String::from_str("OpenDNS")
    } else {
        String::from_str("Unknown")
    }
}

/// The resolver list as the UI shows it, in the given order.
pub fn known_resolvers(addresses: &Vec<String>) -> (r: Vec<ResolverInfo>)
    ensures
        r@.len() == addresses@.len(),
        forall|k: int|
            0 <= k < r@.len() ==> (#[trigger] r@[k]).address@ == addresses@[k]@ && r@[k].operator@
                == operator_spec(addresses@[k]@),
{
    let mut out: Vec<ResolverInfo> = Vec::new();
    let mut i: usize = 0;
    while i < addresses.len()
        invariant
            i <= addresses@.len(),
            out@.len() == i,
            forall|k: int|
                0 <= k < i ==> (#[trigger] out@[k]).address@ == addresses@[k]@ && out@[k].operator@
                    == operator_spec(addresses@[k]@),
        decreases addresses@.len() - i,
    {
        let a = &addresses[i];
        out.push(ResolverInfo { address: a.clone(), operator: operator_for(a.as_str()) });
        i = i + 1;
    }
    out
}

/// The resolver pool in effect and where it comes from.
#[derive(Debug, Clone)]
pub struct EffectiveResolvers {
    pub addresses: Vec<String>,
    /// `"override"` or `"well_known"`.
    pub source: String,
}

/// The configured resolvers, trimmed, blanks dropped.
pub open spec fn trimmed_nonblank(list: Seq<Seq<char>>) -> Seq<Seq<char>> {
    list.map_values(|s: Seq<char>| trim_seq(s)).filter(|s: Seq<char>| s.len() > 0)
}

/// The resolvers in effect: the configured ones, trimmed and without
/// blanks, when any remain; otherwise the well-known pool.
pub fn effective_resolvers(configured: Option<&Vec<String>>, well_known: &Vec<String>) -> (r:
    EffectiveResolvers)
    ensures
        ({
            let overrides = match configured {
                Some(l) => trimmed_nonblank(strs(l@)),
                None => Seq::<Seq<char>>::empty(),
            };
            if overrides.len() > 0 {
                strs(r.addresses@) == overrides && r.source@ == "override"@
            } else {
                strs(r.addresses@) == strs(well_known@) && r.source@ == "well_known"@
            }
        }),
{
    if let Some(list) = configured {
        let ghost src = strs(list@);
        let ghost pred = |s: Seq<char>| s.len() > 0;
        let ghost mapped = src.map_values(|s: Seq<char>| trim_seq(s));
        let mut out: Vec<String> = Vec::new();
        let mut i: usize = 0;
        while i < list.len()
            invariant
                i <= list@.len(),
                src == strs(list@),
                mapped == src.map_values(|s: Seq<char>| trim_seq(s)),
                pred == (|s: Seq<char>| s.len() > 0),
                strs(out@) == mapped.take(i as int).filter(pred),
            decreases list@.len() - i,
        {
            let t = trim(list[i].as_str());
            proof {
                assert(mapped.take(i + 1).drop_last() =~= mapped.take(i as int));
                assert(mapped.take(i + 1).last() == t@);
                reveal(Seq::filter);
            }
            let ghost before = out@;
            if !t.as_str().is_empty() {
                out.push(t);
                assert(strs(out@) =~= strs(before).push(mapped[i as int]));
            }
            i = i + 1;
        }
        assert(mapped.take(list@.len() as int) =~= mapped);
        if out.len() > 0 {
            return EffectiveResolvers { addresses: out, source: String::from_str("override") };
        }
    }
    let mut all: Vec<String> = Vec::new();
    let mut i: usize = 0;
    while i < well_known.len()
        invariant
            i <= well_known@.len(),
            strs(all@) == strs(well_known@).take(i as int),
        decreases well_known@.len() - i,
    {
        let ghost before = all@;
        all.push(well_known[i].clone());
        proof {
            assert(strs(all@) =~= strs(before).push(well_known@[i as int]@));
            assert(strs(well_known@).take(i + 1) =~= strs(well_known@).take(i as int).push(
                strs(well_known@)[i as int],
            ));
        }
        i = i + 1;
    }
    assert(strs(well_known@).take(well_known@.len() as int) =~= strs(well_known@));
    EffectiveResolvers { addresses: all, source: String::from_str("well_known") }
}

/// Severity of a doctor check.
#[derive(Debug, PartialEq, Eq, Structural, Clone, Copy)]
pub enum CheckStatus {
    Pass,
    Warn,
    Fail,
}

/// One row of the doctor report.
#[derive(Debug, Clone)]
pub struct CheckResult {
    pub name: String,
    pub status: CheckStatus,
    pub message: String,
}

/// The doctor report.
#[derive(Debug, Clone)]
pub struct DoctorReport {
    pub checks: Vec<CheckResult>,
    pub overall: CheckStatus,
}

/// How probing the well-known resolver pool went.
#[derive(Debug, Clone)]
pub enum ResolverProbe {
    /// A lookup succeeded through a pool of this many upstreams.
    Reachable(usize),
    /// The pool was built but the lookup failed, for this reason.
    LookupFailed(String),
    /// The pool could not be built, for this reason.
    PoolFailed(String),
}

/// The worse of two statuses.
pub open spec fn worse(a: CheckStatus, b: CheckStatus) -> CheckStatus {
    if a is Fail || b is Fail {
        CheckStatus::Fail
    } else if a is Warn || b is Warn {
        CheckStatus::Warn
    } else {
        CheckStatus::Pass
    }
}

/// The worst status among `checks`, `Pass` for none.
pub open spec fn worst(checks: Seq<CheckResult>) -> CheckStatus
    decreases checks.len(),
{
    if checks.len() == 0 {
        CheckStatus::Pass
    } else {
        worse(worst(checks.drop_last()), checks.last().status)
    }
}

/// A check row.
fn check(name: &str, status: CheckStatus, message: String) -> (c: CheckResult)
    ensures
        c.name@ == name@,
        c.status == status,
        c.message == message,
{
    CheckResult { name: String::from_str(name), status, message }
}

/// The report when no identity is unlocked: one failed check.
pub fn doctor_no_identity() -> (r: DoctorReport)
    ensures
        r.checks@.len() == 1,
        r.checks@[0].name@ == "identity"@,
        r.checks@[0].status == CheckStatus::Fail,
        r.checks@[0].message@ == "no identity unlocked — open Identities to create or unlock one"@,
        r.overall == CheckStatus::Fail,
        r.overall == worst(r.checks@),
{
    let mut checks: Vec<CheckResult> = Vec::new();
    checks.push(
        check(
            "identity",
            CheckStatus::Fail,
            String::from_str("no identity unlocked — open Identities to create or unlock one"),
        ),
    );
    proof {
        assert(checks@.drop_last() =~= Seq::<CheckResult>::empty());
    }
    DoctorReport { checks, overall: CheckStatus::Fail }
}

/// The doctor checklist for an unlocked identity `username@domain`:
/// the identity, the resolver pool, the publish block, and whether the
/// identity's record resolves (`lookup_error` holds why not). The overall
/// status is the worst of the four.
pub fn doctor_report(
    username: &str,
    domain: &str,
    publish_configured: bool,
    probe: ResolverProbe,
    lookup_error: Option<String>,
) -> (r: DoctorReport)
    ensures
        r.checks@.len() == 4,
        r.checks@[0].name@ == "identity"@ && r.checks@[0].status == CheckStatus::Pass
            && r.checks@[0].message@ == "active: "@ + username@ + "@"@ + domain@,
        r.checks@[1].name@ == "resolvers"@ && match probe {
            ResolverProbe::Reachable(n) => r.checks@[1].status == CheckStatus::Pass
                && r.checks@[1].message@ == "reachable ("@ + crate::text::decimal(n as nat)
                + " upstream(s))"@,
            ResolverProbe::LookupFailed(e) => r.checks@[1].status == CheckStatus::Warn
                && r.checks@[1].message@ == "TXT lookup failed: "@ + e@,
            ResolverProbe::PoolFailed(e) => r.checks@[1].status == CheckStatus::Fail
                && r.checks@[1].message@ == "cannot build well-known pool: "@ + e@,
        },
        r.checks@[2].name@ == "publish"@ && if publish_configured {
            r.checks@[2].status == CheckStatus::Pass && r.checks@[2].message@
                == "TSIG-signed UPDATE writer wired"@
        } else {
            r.checks@[2].status == CheckStatus::Warn && r.checks@[2].message@
                == "no publish (TSIG) block configured — publish/send will refuse"@
        },
        r.checks@[3].name@ == "identity_published"@ && match lookup_error {
            None => r.checks@[3].status == CheckStatus::Pass && r.checks@[3].message@ == "found at "@
                + username@ + "@"@ + domain@,
            Some(e) => r.checks@[3].status == CheckStatus::Warn && r.checks@[3].message@
                == "not yet published at "@ + username@ + "@"@ + domain@ + " ("@ + e@ + ")"@,
        },
        r.overall == worst(r.checks@),
{
    let addr = crate::identity::self_address(username, domain);
    let mut checks: Vec<CheckResult> = Vec::new();
    let mut any_fail = false;
    let mut any_warn = false;
    let mut m0 = String::from_str("active: ");
    m0.append(addr.as_str());
    checks.push(check("identity", CheckStatus::Pass, m0));
    match probe {
        ResolverProbe::Reachable(n) => {
            let mut m = String::from_str("reachable (");
            let d = crate::text::decimal_string(n as u128);
            m.append(d.as_str());
            m.append(" upstream(s))");
            checks.push(check("resolvers", CheckStatus::Pass, m));
        },
        ResolverProbe::LookupFailed(e) => {
            any_warn = true;
            let mut m = String::from_str("TXT lookup failed: ");
            m.append(e.as_str());
            checks.push(check("resolvers", CheckStatus::Warn, m));
        },
        ResolverProbe::PoolFailed(e) => {
            any_fail = true;
            let mut m = String::from_str("cannot build well-known pool: ");
            m.append(e.as_str());
            checks.push(check("resolvers", CheckStatus::Fail, m));
        },
    }
    if publish_configured {
        checks.push(
            check("publish", CheckStatus::Pass, String::from_str("TSIG-signed UPDATE writer wired")),
        );
    } else {
        any_warn = true;
        checks.push(
            check(
                "publish",
                CheckStatus::Warn,
                String::from_str("no publish (TSIG) block configured — publish/send will refuse"),
            ),
        );
    }
    match lookup_error {
        None => {
            let mut m = String::from_str("found at ");
            m.append(addr.as_str());
            checks.push(check("identity_published", CheckStatus::Pass, m));
        },
        Some(e) => {
            any_warn = true;
            let mut m = String::from_str("not yet published at ");
            m.append(addr.as_str());
            m.append(" (");
            m.append(e.as_str());
            m.append(")");
            checks.push(check("identity_published", CheckStatus::Warn, m));
        },
    }
    let overall = if any_fail {
        CheckStatus::Fail
    } else if any_warn {
        CheckStatus::Warn
    } else {
        CheckStatus::Pass
    };
    proof {
        reveal_with_fuel(worst, 5);
        let c = checks@;
        assert(c.drop_last().drop_last().drop_last().drop_last() =~= Seq::<CheckResult>::empty());
        assert(c.drop_last().drop_last().drop_last().last() == c[0]);
        assert(c.drop_last().drop_last().last() == c[1]);
        assert(c.drop_last().last() == c[2]);
        assert(c.last() == c[3]);
    }
    DoctorReport { checks, overall }
}

/// A report is `Pass` overall only when every check passed, and `Fail`
/// as soon as one check failed.
pub proof fn law_overall_is_worst(checks: Seq<CheckResult>)
    ensures
        worst(checks) == CheckStatus::Pass <==> forall|i: int|
            0 <= i < checks.len() ==> (#[trigger] checks[i]).status == CheckStatus::Pass,
        worst(checks) == CheckStatus::Fail <==> exists|i: int|
            0 <= i < checks.len() && (#[trigger] checks[i]).status == CheckStatus::Fail,
    decreases checks.len(),
{
    if checks.len() > 0 {
        let prev = checks.drop_last();
        law_overall_is_worst(prev);
        assert forall|i: int| 0 <= i < prev.len() implies #[trigger] prev[i] == checks[i] by {}
        if worst(checks) == CheckStatus::Fail {
            if worst(prev) == CheckStatus::Fail {
                let i = choose|i: int| 0 <= i < prev.len() && (#[trigger] prev[i]).status == CheckStatus::Fail;
                assert(checks[i].status == CheckStatus::Fail);
            } else {
                assert(checks[checks.len() - 1].status == CheckStatus::Fail);
            }
        }
        if exists|i: int| 0 <= i < checks.len() && (#[trigger] checks[i]).status == CheckStatus::Fail {
            let i = choose|i: int| 0 <= i < checks.len() && (#[trigger] checks[i]).status == CheckStatus::Fail;
            if i < prev.len() {
                assert(prev[i].status == CheckStatus::Fail);
            }
        }
        if worst(checks) == CheckStatus::Pass {
            assert forall|i: int| 0 <= i < checks.len() implies (#[trigger] checks[i]).status
                == CheckStatus::Pass by {
                if i < prev.len() {
                    assert(prev[i].status == CheckStatus::Pass);
                }
            }
        }
        if forall|i: int| 0 <= i < checks.len() ==> (#[trigger] checks[i]).status == CheckStatus::Pass {
            assert forall|i: int| 0 <= i < prev.len() implies (#[trigger] prev[i]).status
                == CheckStatus::Pass by {
                assert(checks[i].status == CheckStatus::Pass);
            }
            assert(checks[checks.len() - 1].status == CheckStatus::Pass);
        }
    }
}

/// The host part of an endpoint URL: after any `scheme://`, up to the
/// first `/`.
pub open spec fn endpoint_host_spec(endpoint: Seq<char>) -> Seq<char> {
    let rest = match find_sub(endpoint, "://"@) {
        Some(i) => endpoint.subrange(i + 3, endpoint.len() as int),
        None => endpoint,
    };
    rest.subrange(0, first_pos(rest, '/'))
}

/// Pull the bare host out of an endpoint URL.
pub fn endpoint_host(endpoint: &str) -> (r: String)
    ensures
        r@ == endpoint_host_spec(endpoint@),
{
    let v = chars_of(endpoint);
    let sep: Vec<char> = vec![':', '/', '/'];
    proof {
        reveal_strlit("://");
        assert(sep@ =~= "://"@);
    }
    let start: usize = match find_str(v.as_slice(), sep.as_slice()) {
        Some(i) => {
            assert(crate::text::occurs_at(v@, sep@, i as int));
            assert(sep@.len() == 3);
            assert(i + 3 <= v@.len());
            assert(v@.len() == v.len());
            i + 3
        },
        None => 0,
    };
    let rest = slice_string(v.as_slice(), start, v.len());
    let rv = chars_of(rest.as_str());
    let end = find_char(rv.as_slice(), '/');
    proof {
        if find_sub(endpoint@, "://"@) is None {
            assert(v@.subrange(0, v@.len() as int) =~= v@);
        }
    }
    slice_string(rv.as_slice(), 0, end)
}

/// The DNS host of an endpoint: the URL's host with any port removed;
/// a bracketed IPv6 literal loses its brackets, and a bare IPv6 address
/// (more than one `:`) is left as it is.
pub open spec fn strip_endpoint_spec(endpoint: Seq<char>) -> Seq<char> {
    let h = endpoint_host_spec(endpoint);
    let r = h.drop_first();
    if h.len() > 0 && h[0] == '[' && r.contains(']') {
        r.subrange(0, first_pos(r, ']'))
    } else if h.contains(':') {
        let host = h.subrange(0, last_pos(h, ':'));
        if !host.contains(':') {
            host
        } else {
            h
        }
    } else {
        h
    }
}

/// Strip scheme, port and path from an endpoint URL.
pub fn strip_endpoint_to_host(endpoint: &str) -> (r: String)
    ensures
        r@ == strip_endpoint_spec(endpoint@),
{
    let host = endpoint_host(endpoint);
    let h = chars_of(host.as_str());
    if h.len() > 0 && h[0] == '[' {
        let rest = slice_string(h.as_slice(), 1, h.len());
        let rv = chars_of(rest.as_str());
        proof {
            assert(rv@ =~= h@.drop_first());
        }
        let end = find_char(rv.as_slice(), ']');
        if end < rv.len() {
            proof {
                assert(rv@.contains(']'));
            }
            return slice_string(rv.as_slice(), 0, end);
        }
    }
    match rfind_char(h.as_slice(), ':') {
        Some(k) => {
            let before = slice_string(h.as_slice(), 0, k);
            let bv = chars_of(before.as_str());
            let inner = find_char(bv.as_slice(), ':');
            proof {
                assert(h@.contains(':'));
            }
            if inner == bv.len() {
                before
            } else {
                proof {
                    assert(bv@.contains(':'));
                }
                host
            }
        },
        None => host,
    }
}

/// One live operator found through a verified heartbeat.
#[derive(Debug, Clone)]
pub struct DiscoveredNode {
    /// Operator HTTPS endpoint.
    pub endpoint: String,
    /// Operator Ed25519 signing key, hex.
    pub operator_spk_hex: String,
    pub version: String,
    /// The operator's claim-provider zone, empty when none.
    pub claim_provider_zone: String,
    /// Seconds until the heartbeat expires; positive.
    pub seconds_until_stale: i64,
}

/// The fields of a heartbeat that parsed and verified.
#[derive(Debug, Clone)]
pub struct HeartbeatFacts {
    pub endpoint: String,
    pub operator_spk: Vec<u8>,
    pub version: String,
    pub claim_provider_zone: String,
    pub exp: u64,
}

/// A discovered node as plain values.
pub type NodeView = (Seq<char>, Seq<char>, Seq<char>, Seq<char>, int);

/// The plain values of a discovered node.
pub open spec fn node_view(n: DiscoveredNode) -> NodeView {
    (n.endpoint@, n.operator_spk_hex@, n.version@, n.claim_provider_zone@, n.seconds_until_stale as int)
}

/// Seconds from `now` until `exp`: zero once passed, capped at `i64::MAX`.
pub open spec fn stale_in(exp: u64, now: u64) -> int {
    if exp > now {
        if exp - now > i64::MAX {
            i64::MAX as int
        } else {
            exp - now
        }
    } else {
        0
    }
}

/// Seconds until `exp`, as `stale_in` states.
pub fn seconds_until(exp: u64, now: u64) -> (r: i64)
    ensures
        r as int == stale_in(exp, now),
        r >= 0,
{
    if exp > now {
        let d: u64 = exp - now;
        if d > 0x7fff_ffff_ffff_ffff {
            0x7fff_ffff_ffff_ffff
        } else {
            d as i64
        }
    } else {
        0
    }
}

/// The nodes a heartbeat answer set yields, in answer order: one per
/// verified heartbeat that has not gone stale.
pub open spec fn discovered_candidates(records: Seq<Option<HeartbeatFacts>>, now: u64) -> Seq<NodeView>
    decreases records.len(),
{
    if records.len() == 0 {
        seq![]
    } else {
        let prev = discovered_candidates(records.drop_last(), now);
        match records.last() {
            Some(f) => if stale_in(f.exp, now) > 0 {
                prev.push(
                    (
                        f.endpoint@,
                        crate::hexcodec::hex_encode_spec(f.operator_spk@),
                        f.version@,
                        f.claim_provider_zone@,
                        stale_in(f.exp, now),
                    ),
                )
            } else {
                prev
            },
            None => prev,
        }
    }
}

/// Where `insert_freshest` puts a node staying `k` seconds into `s`: after
/// every node staying at least as long.
pub open spec fn insert_pos(s: Seq<NodeView>, k: int) -> int {
    choose|p: int| pos_ok(s, k, p)
}

/// Whether `p` is past every node staying at least `k` seconds and at a
/// node staying less, or at the end.
pub open spec fn pos_ok(s: Seq<NodeView>, k: int, p: int) -> bool {
    0 <= p <= s.len() && (forall|i: int| 0 <= i < p ==> s[i].4 >= k) && (p == s.len() || s[p].4 < k)
}

/// `s` with `x` inserted after every node staying at least as long.
pub open spec fn insert_freshest(s: Seq<NodeView>, x: NodeView) -> Seq<NodeView> {
    let p = insert_pos(s, x.4);
    s.take(p).push(x) + s.skip(p)
}

/// `s` ordered freshest first, ties kept in their original order.
pub open spec fn freshest_first(s: Seq<NodeView>) -> Seq<NodeView>
    decreases s.len(),
{
    if s.len() == 0 {
        seq![]
    } else {
        insert_freshest(freshest_first(s.drop_last()), s.last())
    }
}

/// Whether `s` is ordered freshest first.
pub open spec fn is_freshest_first(s: Seq<NodeView>) -> bool {
    forall|i: int, j: int| 0 <= i < j < s.len() ==> s[i].4 >= s[j].4
}

proof fn lemma_insert_pos(s: Seq<NodeView>, k: int, p: int)
    requires
        0 <= p <= s.len(),
        forall|i: int| 0 <= i < p ==> s[i].4 >= k,
        p == s.len() || s[p].4 < k,
    ensures
        insert_pos(s, k) == p,
{
    assert(pos_ok(s, k, p));
    let w = insert_pos(s, k);
    assert(pos_ok(s, k, w));
    if w < p {
        assert(s[w].4 >= k);
    } else if p < w {
        assert(s[p].4 >= k);
    }
}

proof fn lemma_first_shorter(s: Seq<NodeView>, k: int) -> (p: int)
    ensures
        0 <= p <= s.len(),
        forall|i: int| 0 <= i < p ==> s[i].4 >= k,
        p == s.len() || s[p].4 < k,
    decreases s.len(),
{
    if s.len() == 0 {
        0
    } else if s[0].4 < k {
        0
    } else {
        let q = lemma_first_shorter(s.drop_first(), k);
        assert forall|i: int| 0 <= i < q + 1 implies s[i].4 >= k by {
            if i > 0 {
                assert(s[i] == s.drop_first()[i - 1]);
            }
        }
        if q < s.drop_first().len() {
            assert(s[q + 1] == s.drop_first()[q]);
        }
        q + 1
    }
}

/// Ordering keeps the freshest first.
pub proof fn law_freshest_first_sorted(s: Seq<NodeView>)
    ensures
        is_freshest_first(freshest_first(s)),
        freshest_first(s).len() == s.len(),
    decreases s.len(),
{
    if s.len() > 0 {
        law_freshest_first_sorted(s.drop_last());
        let t = freshest_first(s.drop_last());
        let x = s.last();
        let p = lemma_first_shorter(t, x.4);
        lemma_insert_pos(t, x.4, p);
        let r = t.take(p).push(x) + t.skip(p);
        assert(r.len() == t.len() + 1);
        assert forall|i: int, j: int| 0 <= i < j < r.len() implies r[i].4 >= r[j].4 by {
            if j < p {
                assert(r[i] == t[i] && r[j] == t[j]);
            } else if j == p {
                assert(r[i] == t[i]);
            } else if i < p {
                assert(r[i] == t[i] && r[j] == t[j - 1]);
            } else if i == p {
                assert(r[j] == t[j - 1]);
                assert(t[p].4 < x.4);
                assert(t[p].4 >= t[j - 1].4 || j - 1 == p);
            } else {
                assert(r[i] == t[i - 1] && r[j] == t[j - 1]);
            }
        }
    }
}

/// Inserting `y` keeps every node and adds `y`, nothing else.
proof fn lemma_insert_freshest_contains(t: Seq<NodeView>, y: NodeView, x: NodeView)
    ensures
        insert_freshest(t, y).contains(x) <==> (t.contains(x) || x == y),
{
    let p = lemma_first_shorter(t, y.4);
    lemma_insert_pos(t, y.4, p);
    let r = t.take(p).push(y) + t.skip(p);
    assert(r.len() == t.len() + 1);
    if r.contains(x) {
        let k = choose|k: int| 0 <= k < r.len() && r[k] == x;
        if k < p {
            assert(t[k] == x);
        } else if k > p {
            assert(r[k] == t[k - 1]);
        }
    }
    if t.contains(x) {
        let k = choose|k: int| 0 <= k < t.len() && t[k] == x;
        if k < p {
            assert(r[k] == x);
        } else {
            assert(r[k + 1] == t[k]);
        }
    }
    if x == y {
        assert(r[p] == y);
    }
}

/// Ordering freshest first keeps exactly the nodes it was given.
proof fn lemma_freshest_first_contains(s: Seq<NodeView>, x: NodeView)
    ensures
        freshest_first(s).contains(x) <==> s.contains(x),
    decreases s.len(),
{
    if s.len() > 0 {
        lemma_freshest_first_contains(s.drop_last(), x);
        lemma_insert_freshest_contains(freshest_first(s.drop_last()), s.last(), x);
        if s.drop_last().contains(x) {
            let k = choose|k: int| 0 <= k < s.drop_last().len() && s.drop_last()[k] == x;
            assert(s[k] == x);
        }
        if s.contains(x) {
            let k = choose|k: int| 0 <= k < s.len() && s[k] == x;
            if k < s.len() - 1 {
                assert(s.drop_last()[k] == x);
            }
        }
    }
}

/// The node a live heartbeat yields, field for field.
pub open spec fn heartbeat_node(f: HeartbeatFacts, now: u64) -> NodeView {
    (
        f.endpoint@,
        crate::hexcodec::hex_encode_spec(f.operator_spk@),
        f.version@,
        f.claim_provider_zone@,
        stale_in(f.exp, now),
    )
}

/// The candidates are exactly the nodes of the live heartbeats.
proof fn lemma_candidates_contains(records: Seq<Option<HeartbeatFacts>>, now: u64, x: NodeView)
    ensures
        discovered_candidates(records, now).contains(x) <==> from_live_heartbeat(records, now, x),
    decreases records.len(),
{
    if records.len() > 0 {
        let prev = records.drop_last();
        lemma_candidates_contains(prev, now, x);
        let c = discovered_candidates(records, now);
        let cp = discovered_candidates(prev, now);
        if c.contains(x) {
            let k = choose|k: int| 0 <= k < c.len() && c[k] == x;
            if k < cp.len() {
                assert(cp[k] == x);
                assert(cp.contains(x));
                let j = choose|j: int|
                    0 <= j < prev.len() && (#[trigger] prev[j] matches Some(f) && {
                        &&& x.0 == f.endpoint@
                        &&& x.1 == crate::hexcodec::hex_encode_spec(f.operator_spk@)
                        &&& x.2 == f.version@
                        &&& x.3 == f.claim_provider_zone@
                        &&& x.4 == stale_in(f.exp, now)
                        &&& x.4 > 0
                    });
                assert(records[j] == prev[j]);
            } else {
                assert(records[records.len() - 1] == records.last());
            }
        }
        if from_live_heartbeat(records, now, x) {
            let j = choose|j: int|
                0 <= j < records.len() && (#[trigger] records[j] matches Some(f) && {
                    &&& x.0 == f.endpoint@
                    &&& x.1 == crate::hexcodec::hex_encode_spec(f.operator_spk@)
                    &&& x.2 == f.version@
                    &&& x.3 == f.claim_provider_zone@
                    &&& x.4 == stale_in(f.exp, now)
                    &&& x.4 > 0
                });
            if j < records.len() - 1 {
                assert(prev[j] == records[j]);
                assert(from_live_heartbeat(prev, now, x));
                let k = choose|k: int| 0 <= k < cp.len() && cp[k] == x;
                assert(c[k] == x);
            } else {
                assert(c[c.len() - 1] == x);
            }
        }
    }
}

/// Whether `n` is the node of a live heartbeat among `records`: one that
/// parsed and has not gone stale at `now`, whose endpoint, operator key,
/// version and claim-provider zone `n` carries, with its time to
/// staleness.
pub open spec fn from_live_heartbeat(records: Seq<Option<HeartbeatFacts>>, now: u64, n: NodeView) -> bool {
    exists|j: int|
        0 <= j < records.len() && (#[trigger] records[j] matches Some(f) && {
            &&& n.0 == f.endpoint@
            &&& n.1 == crate::hexcodec::hex_encode_spec(f.operator_spk@)
            &&& n.2 == f.version@
            &&& n.3 == f.claim_provider_zone@
            &&& n.4 == stale_in(f.exp, now)
            &&& n.4 > 0
        })
}

/// Each discovered node is the node of one live heartbeat, carrying that
/// heartbeat's own endpoint, operator key, version and claim-provider
/// zone and its time to staleness; and every live heartbeat's node is
/// discovered.
pub proof fn law_discovered_nodes_carry_their_heartbeat(records: Seq<Option<HeartbeatFacts>>, now: u64)
    ensures
        forall|k: int|
            0 <= k < freshest_first(discovered_candidates(records, now)).len() ==> from_live_heartbeat(
                records,
                now,
                #[trigger] freshest_first(discovered_candidates(records, now))[k],
            ),
        forall|j: int|
            0 <= j < records.len() ==> ((#[trigger] records[j]) matches Some(f) ==> (stale_in(f.exp, now)
                > 0 ==> freshest_first(discovered_candidates(records, now)).contains(
                (
                    f.endpoint@,
                    crate::hexcodec::hex_encode_spec(f.operator_spk@),
                    f.version@,
                    f.claim_provider_zone@,
                    stale_in(f.exp, now),
                ),
            ))),
{
    let out = freshest_first(discovered_candidates(records, now));
    assert forall|k: int| 0 <= k < out.len() implies from_live_heartbeat(records, now, #[trigger] out[k]) by {
        let x = out[k];
        assert(out.contains(x));
        lemma_freshest_first_contains(discovered_candidates(records, now), x);
        lemma_candidates_contains(records, now, x);
    }
    assert forall|j: int|
        0 <= j < records.len() implies ((#[trigger] records[j]) matches Some(f) ==> (stale_in(f.exp, now)
            > 0 ==> out.contains(
            (
                f.endpoint@,
                crate::hexcodec::hex_encode_spec(f.operator_spk@),
                f.version@,
                f.claim_provider_zone@,
                stale_in(f.exp, now),
            ),
        ))) by {
        if let Some(f) = records[j] {
            if stale_in(f.exp, now) > 0 {
                let x = heartbeat_node(f, now);
                assert(from_live_heartbeat(records, now, x));
                lemma_candidates_contains(records, now, x);
                lemma_freshest_first_contains(discovered_candidates(records, now), x);
            }
        }
    }
}

/// The live nodes among verified heartbeats, freshest first: each
/// heartbeat that parsed (`Some`) and has not gone stale at `now`, ties in
/// answer order.
pub fn discovered_nodes(records: Vec<Option<HeartbeatFacts>>, now: u64) -> (r: Vec<DiscoveredNode>)
    ensures
        r@.map_values(|n: DiscoveredNode| node_view(n)) == freshest_first(
            discovered_candidates(records@, now),
        ),
{
    let ghost all = records@;
    let mut out: Vec<DiscoveredNode> = Vec::new();
    for rec in it: records.into_iter()
        invariant
            it.seq() == all,
            out@.map_values(|n: DiscoveredNode| node_view(n)) == freshest_first(
                discovered_candidates(all.take(it.index() as int), now),
            ),
    {
        let ghost k = it.index() as int;
        proof {
            assert(all.take(k + 1).drop_last() =~= all.take(k));
            assert(all.take(k + 1).last() == rec);
        }
        if let Some(f) = rec {
            let secs = seconds_until(f.exp, now);
            if secs > 0 {
                let node = DiscoveredNode {
                    endpoint: f.endpoint,
                    operator_spk_hex: crate::hexcodec::hex_encode(f.operator_spk.as_slice()),
                    version: f.version,
                    claim_provider_zone: f.claim_provider_zone,
                    seconds_until_stale: secs,
                };
                let ghost x = node_view(node);
                let ghost t = out@.map_values(|n: DiscoveredNode| node_view(n));
                let mut p: usize = 0;
                while p < out.len() && out[p].seconds_until_stale >= secs
                    invariant
                        p <= out@.len(),
                        t == out@.map_values(|n: DiscoveredNode| node_view(n)),
                        x.4 == secs as int,
                        forall|i: int| 0 <= i < p ==> t[i].4 >= x.4,
                    decreases out@.len() - p,
                {
                    assert(t[p as int] == node_view(out@[p as int]));
                    p = p + 1;
                }
                proof {
                    if p < out@.len() {
                        assert(t[p as int] == node_view(out@[p as int]));
                    }
                    lemma_insert_pos(t, x.4, p as int);
                }
                out.insert(p, node);
                proof {
                    assert(out@.map_values(|n: DiscoveredNode| node_view(n)) =~= t.take(p as int).push(
                        x,
                    ) + t.skip(p as int));
                    let prev = discovered_candidates(all.take(k), now);
                    assert(discovered_candidates(all.take(k + 1), now) == prev.push(x));
                    assert(prev.push(x).drop_last() =~= prev);
                    assert(freshest_first(prev.push(x)) == insert_freshest(freshest_first(prev), x));
                }
            }
        }
    }
    proof {
        assert(all.take(all.len() as int) =~= all);
    }
    out
}

/// Static metadata of one curated node.
#[derive(Debug, Clone)]
pub struct KnownNode {
    pub zone: &'static str,
    pub operator_name: &'static str,
    pub description: &'static str,
}

/// The curated list of known nodes. DMP has no central directory, so a
/// fresh install needs at least one zone to query.
pub fn well_known_nodes() -> (r: Vec<KnownNode>)
    ensures
        r@.len() == 2,
        r@[0].zone@ == "dmp.dnsmesh.io"@,
        r@[0].operator_name@ == "dnsmesh.io (reference node)"@,
        r@[0].description@
            == "The canonical public DMP node operated by the DNS Mesh Protocol project. Open registration."@,
        r@[1].zone@ == "dmp.dnsmesh.pro"@,
        r@[1].operator_name@ == "dnsmesh.pro"@,
        r@[1].description@ == "Open-registration DMP node hosted on dnsmesh.pro."@,
{
    let mut v: Vec<KnownNode> = Vec::new();
    v.push(
        KnownNode {
            zone: "dmp.dnsmesh.io",
            operator_name: "dnsmesh.io (reference node)",
            description: "The canonical public DMP node operated by the DNS Mesh Protocol project. Open registration.",
        },
    );
    v.push(
        KnownNode {
            zone: "dmp.dnsmesh.pro",
            operator_name: "dnsmesh.pro",
            description: "Open-registration DMP node hosted on dnsmesh.pro.",
        },
    );
    v
}

/// A curated or directory node with its live status.
#[derive(Debug, Clone)]
pub struct KnownNodeStatus {
    pub zone: String,
    pub operator_name: String,
    pub description: String,
    /// The freshest verified heartbeat, if any.
    pub live: Option<DiscoveredNode>,
    /// `"curated"` or `"directory"`.
    pub source: String,
}

/// One node of the public directory feed.
#[derive(Debug, Clone)]
pub struct DirectoryNode {
    pub endpoint: String,
    pub version: String,
    pub exp: u64,
    pub last_seen_via: Vec<String>,
    pub geo: Option<DirectoryGeo>,
}

/// Geolocation of a directory node.
#[derive(Debug, Clone)]
pub struct DirectoryGeo {
    pub country: String,
    pub country_code: String,
    pub city: String,
}

/// `<host> · <city>, <country_code>` when the geo block is rich, falling
/// back to the city and country, the country alone, or the bare host.
pub open spec fn operator_label_spec(node: DirectoryNode) -> Seq<char> {
    let host = endpoint_host_spec(node.endpoint@);
    let (city, cc, country) = match node.geo {
        Some(g) => (trim_seq(g.city@), trim_seq(g.country_code@), trim_seq(g.country@)),
        None => (Seq::<char>::empty(), Seq::<char>::empty(), Seq::<char>::empty()),
    };
    if city.len() > 0 && cc.len() > 0 {
        host + " · "@ + city + ", "@ + cc
    } else if city.len() > 0 && country.len() > 0 {
        host + " · "@ + city + ", "@ + country
    } else if country.len() > 0 {
        host + " · "@ + country
    } else {
        host
    }
}

/// The operator label of a directory node.
pub fn directory_operator_label(node: &DirectoryNode) -> (r: String)
    ensures
        r@ == operator_label_spec(*node),
{
    let host = endpoint_host(node.endpoint.as_str());
    let (city, cc, country) = match &node.geo {
        Some(g) => (trim(g.city.as_str()), trim(g.country_code.as_str()), trim(g.country.as_str())),
        None => (String::new(), String::new(), String::new()),
    };
    let has_city = !city.as_str().is_empty();
    let has_cc = !cc.as_str().is_empty();
    let has_country = !country.as_str().is_empty();
    if has_city && has_cc {
        let mut r = host;
        r.append(" · ");
        r.append(city.as_str());
        r.append(", ");
        r.append(cc.as_str());
        r
    } else if has_city && has_country {
        let mut r = host;
        r.append(" · ");
        r.append(city.as_str());
        r.append(", ");
        r.append(country.as_str());
        r
    } else if has_country {
        let mut r = host;
        r.append(" · ");
        r.append(country.as_str());
        r
    } else {
        host
    }
}

/// A known-node row as plain values: zone, operator, description, live
/// node and source.
pub type StatusView = (Seq<char>, Seq<char>, Seq<char>, Option<NodeView>, Seq<char>);

/// The plain values of a known-node row.
pub open spec fn status_view(s: KnownNodeStatus) -> StatusView {
    (
        s.zone@,
        s.operator_name@,
        s.description@,
        match s.live {
            Some(n) => Some(node_view(n)),
            None => None,
        },
        s.source@,
    )
}

/// The zones of a directory node a merge lists, given the zones listed
/// already: each trimmed, non-blank and not yet listed, in order.
pub open spec fn fresh_zones(seen: Seq<Seq<char>>, zones: Seq<Seq<char>>) -> Seq<Seq<char>>
    decreases zones.len(),
{
    if zones.len() == 0 {
        seq![]
    } else {
        let acc = fresh_zones(seen, zones.drop_last());
        let z = trim_seq(zones.last());
        if z.len() == 0 || (seen + acc).contains(z) {
            acc
        } else {
            acc.push(z)
        }
    }
}

/// The row a directory node contributes for `zone`.
pub open spec fn directory_row(node: DirectoryNode, zone: Seq<char>, now: u64) -> StatusView {
    let secs = stale_in(node.exp, now);
    (
        zone,
        operator_label_spec(node),
        "Discovered via dnsmeshprotocol.org directory · "@ + node.endpoint@,
        if secs > 0 {
            Some((node.endpoint@, Seq::<char>::empty(), node.version@, zone, secs))
        } else {
            None
        },
        "directory"@,
    )
}

/// The zones of a list of rows.
pub open spec fn row_zones(rows: Seq<StatusView>) -> Seq<Seq<char>> {
    rows.map_values(|r: StatusView| r.0)
}

/// The rows the directory contributes after the rows zoned `seen`.
pub open spec fn directory_rows(seen: Seq<Seq<char>>, nodes: Seq<DirectoryNode>, now: u64) -> Seq<
    StatusView,
>
    decreases nodes.len(),
{
    if nodes.len() == 0 {
        seq![]
    } else {
        let prev = directory_rows(seen, nodes.drop_last(), now);
        let node = nodes.last();
        let zones = fresh_zones(seen + row_zones(prev), strs(node.last_seen_via@));
        prev + zones.map_values(|z: Seq<char>| directory_row(node, z, now))
    }
}

/// Zone, operator and description of each curated node.
pub open spec fn curated_meta() -> Seq<(Seq<char>, Seq<char>, Seq<char>)> {
    seq![
        (
            "dmp.dnsmesh.io"@,
            "dnsmesh.io (reference node)"@,
            "The canonical public DMP node operated by the DNS Mesh Protocol project. Open registration."@,
        ),
        (
            "dmp.dnsmesh.pro"@,
            "dnsmesh.pro"@,
            "Open-registration DMP node hosted on dnsmesh.pro."@,
        ),
    ]
}

/// The curated rows: each curated node with the live node found for it.
pub open spec fn curated_rows(
    curated: Seq<(Seq<char>, Seq<char>, Seq<char>)>,
    live: Seq<Option<DiscoveredNode>>,
) -> Seq<StatusView> {
    let n = if curated.len() < live.len() {
        curated.len()
    } else {
        live.len()
    };
    Seq::new(
        n as nat,
        |i: int|
            (
                curated[i].0,
                curated[i].1,
                curated[i].2,
                match live[i] {
                    Some(d) => Some(node_view(d)),
                    None => None,
                },
                "curated"@,
            ),
    )
}

/// Every curated node listed carries exactly its own live status: the
/// node found for it, field for field, or none when none was found; and
/// its row is marked curated. This holds for every index below both the
/// curated list and the live list.
pub proof fn law_curated_rows_carry_live_status(
    live: Seq<Option<DiscoveredNode>>,
    directory: Seq<DirectoryNode>,
    now: u64,
)
    ensures
        ({
            let cur = curated_rows(curated_meta(), live);
            let rows = cur + directory_rows(row_zones(cur), directory, now);
            forall|i: int|
                0 <= i < curated_meta().len() && i < live.len() ==> {
                    &&& rows[i].0 == curated_meta()[i].0
                    &&& rows[i].1 == curated_meta()[i].1
                    &&& rows[i].2 == curated_meta()[i].2
                    &&& rows[i].4 == "curated"@
                    &&& match #[trigger] live[i] {
                        Some(d) => rows[i].3 == Some(
                            (
                                d.endpoint@,
                                d.operator_spk_hex@,
                                d.version@,
                                d.claim_provider_zone@,
                                d.seconds_until_stale as int,
                            ),
                        ),
                        None => rows[i].3 is None,
                    }
                }
        }),
{
    let cur = curated_rows(curated_meta(), live);
    let rows = cur + directory_rows(row_zones(cur), directory, now);
    assert forall|i: int| 0 <= i < curated_meta().len() && i < live.len() implies rows[i] == cur[i] by {}
}

/// The node list: the curated nodes first, each with its live status,
/// then one row per directory zone not already listed.
pub fn merge_known_nodes(live: Vec<Option<DiscoveredNode>>, directory: Vec<DirectoryNode>, now: u64) -> (r:
    Vec<KnownNodeStatus>)
    ensures
        ({
            let cur = curated_rows(curated_meta(), live@);
            r@.map_values(|s: KnownNodeStatus| status_view(s)) == cur + directory_rows(
                row_zones(cur),
                directory@,
                now,
            )
        }),
{
    let curated = well_known_nodes();
    let ghost cur_nodes = curated_meta();
    let ghost live_all = live@;
    let mut out: Vec<KnownNodeStatus> = Vec::new();
    let mut seen: Vec<String> = Vec::new();
    let n = if curated.len() < live.len() {
        curated.len()
    } else {
        live.len()
    };
    let mut i: usize = 0;
    let mut live_iter = live;
    assert(forall|q: int|
        0 <= q < curated@.len() ==> (#[trigger] curated@[q]).zone@ == cur_nodes[q].0
            && curated@[q].operator_name@ == cur_nodes[q].1 && curated@[q].description@
            == cur_nodes[q].2);
    for slot in it: live_iter.into_iter()
        invariant
            it.seq() == live_all,
            i == (if it.index() < n {
                it.index()
            } else {
                n as int
            }),
            cur_nodes == curated_meta(),
            curated@.len() == cur_nodes.len(),
            forall|q: int|
                0 <= q < curated@.len() ==> (#[trigger] curated@[q]).zone@ == cur_nodes[q].0
                    && curated@[q].operator_name@ == cur_nodes[q].1 && curated@[q].description@
                    == cur_nodes[q].2,
            n == (if cur_nodes.len() < live_all.len() {
                cur_nodes.len()
            } else {
                live_all.len()
            }),
            it.index() <= n ==> out@.map_values(|s: KnownNodeStatus| status_view(s)) == curated_rows(cur_nodes, live_all).take(it.index() as int),
            it.index() > n ==> out@.map_values(|s: KnownNodeStatus| status_view(s)) == curated_rows(cur_nodes, live_all),
            strs(seen@) == row_zones(out@.map_values(|s: KnownNodeStatus| status_view(s))),
    {
        let k = i;
        if k < n {
            i = i + 1;
            let node = &curated[k];
            let ghost before = out@;
            let row = KnownNodeStatus {
                zone: String::from_str(node.zone),
                operator_name: String::from_str(node.operator_name),
                description: String::from_str(node.description),
                live: slot,
                source: String::from_str("curated"),
            };
            let ghost before_seen = seen@;
            seen.push(String::from_str(node.zone));
            out.push(row);
            proof {
                let cr = curated_rows(cur_nodes, live_all);
                assert(out@.map_values(|s: KnownNodeStatus| status_view(s)) =~= before.map_values(|s: KnownNodeStatus| status_view(s)).push(cr[k as int]));
                assert(cr.take(k + 1) =~= cr.take(k as int).push(cr[k as int]));
                assert(strs(seen@) =~= strs(before_seen).push(cur_nodes[k as int].0));
                assert(row_zones(out@.map_values(|s: KnownNodeStatus| status_view(s))) =~= row_zones(before.map_values(|s: KnownNodeStatus| status_view(s))).push(cur_nodes[k as int].0));
            }
        } else {
            proof {
                let cr = curated_rows(cur_nodes, live_all);
                assert(cr.take(n as int) =~= cr);
            }
        }
    }
    i = 0;
    proof {
        let cr = curated_rows(cur_nodes, live_all);
        if live_all.len() <= n {
            assert(cr.take(live_all.len() as int) =~= cr);
        }
    }
    let ghost cur = out@.map_values(|s: KnownNodeStatus| status_view(s));
    let ghost dir_all = directory@;
    for node in dit: directory.into_iter()
        invariant
            dit.seq() == dir_all,
            out@.map_values(|s: KnownNodeStatus| status_view(s)) == cur + directory_rows(
                row_zones(cur),
                dir_all.take(dit.index() as int),
                now,
            ),
            strs(seen@) == row_zones(out@.map_values(|s: KnownNodeStatus| status_view(s))),
    {
        let ghost k = dit.index() as int;
        let label = directory_operator_label(&node);
        let mut desc = String::from_str("Discovered via dnsmeshprotocol.org directory · ");
        desc.append(node.endpoint.as_str());
        let secs = seconds_until(node.exp, now);
        let ghost prev_rows = directory_rows(row_zones(cur), dir_all.take(k), now);
        let ghost seen0 = row_zones(cur) + row_zones(prev_rows);
        let ghost zones_all = strs(node.last_seen_via@);
        let ghost start = out@.map_values(|s: KnownNodeStatus| status_view(s));
        proof {
            assert(row_zones(cur + prev_rows) =~= row_zones(cur) + row_zones(prev_rows));
        }
        let mut j: usize = 0;
        while j < node.last_seen_via.len()
            invariant
                j <= node.last_seen_via@.len(),
                zones_all == strs(node.last_seen_via@),
                start == cur + prev_rows,
                seen0 == row_zones(cur) + row_zones(prev_rows),
                row_zones(start) == seen0,
                label@ == operator_label_spec(node),
                desc@ == "Discovered via dnsmeshprotocol.org directory · "@ + node.endpoint@,
                secs as int == stale_in(node.exp, now),
                out@.map_values(|s: KnownNodeStatus| status_view(s)) == start + fresh_zones(
                    seen0,
                    zones_all.take(j as int),
                ).map_values(|z: Seq<char>| directory_row(node, z, now)),
                strs(seen@) == seen0 + fresh_zones(seen0, zones_all.take(j as int)),
            decreases node.last_seen_via@.len() - j,
        {
            let z = trim(node.last_seen_via[j].as_str());
            let ghost acc = fresh_zones(seen0, zones_all.take(j as int));
            proof {
                assert(zones_all.take(j + 1).drop_last() =~= zones_all.take(j as int));
                assert(zones_all.take(j + 1).last() == node.last_seen_via@[j as int]@);
            }
            if !z.as_str().is_empty() && !crate::inbox::contains_id(&seen, z.as_str()) {
                let live = if secs > 0 {
                    Some(
                        DiscoveredNode {
                            endpoint: node.endpoint.clone(),
                            operator_spk_hex: String::new(),
                            version: node.version.clone(),
                            claim_provider_zone: z.clone(),
                            seconds_until_stale: secs,
                        },
                    )
                } else {
                    None
                };
                let ghost before = out@;
                let ghost before_seen = seen@;
                out.push(
                    KnownNodeStatus {
                        zone: z.clone(),
                        operator_name: label.clone(),
                        description: desc.clone(),
                        live,
                        source: String::from_str("directory"),
                    },
                );
                seen.push(z);
                proof {
                    let acc2 = fresh_zones(seen0, zones_all.take(j + 1));
                    assert(acc2 == acc.push(trim_seq(zones_all.take(j + 1).last())));
                    assert(acc2.map_values(|z: Seq<char>| directory_row(node, z, now)) =~= acc.map_values(|z: Seq<char>| directory_row(node, z, now)).push(directory_row(node, acc2.last(), now)));
                    assert(out@.map_values(|s: KnownNodeStatus| status_view(s)) =~= before.map_values(|s: KnownNodeStatus| status_view(s)).push(directory_row(node, acc2.last(), now)));
                    assert(strs(seen@) =~= strs(before_seen).push(acc2.last()));
                }
            }
            j = j + 1;
        }
        proof {
            assert(zones_all.take(zones_all.len() as int) =~= zones_all);
            let rows_k1 = directory_rows(row_zones(cur), dir_all.take(k + 1), now);
            assert(dir_all.take(k + 1).drop_last() =~= dir_all.take(k));
            assert(dir_all.take(k + 1).last() == node);
            assert(rows_k1 == prev_rows + fresh_zones(seen0, zones_all).map_values(|z: Seq<char>| directory_row(node, z, now)));
            assert(out@.map_values(|s: KnownNodeStatus| status_view(s)) =~= cur + rows_k1);
            assert(row_zones(cur + rows_k1) =~= row_zones(cur) + row_zones(rows_k1));
            assert(row_zones(rows_k1) =~= row_zones(prev_rows) + fresh_zones(seen0, zones_all));
            assert(strs(seen@) =~= row_zones(out@.map_values(|s: KnownNodeStatus| status_view(s))));
        }
    }
    proof {
        assert(dir_all.take(dir_all.len() as int) =~= dir_all);
    }
    out
}

/// The TSIG algorithm a confirm response names when it names none.
pub fn default_tsig_algo_for_response() -> (r: String)
    ensures
        r@ == "hmac-sha256"@,
{
    String::from_str("hmac-sha256")
}

/// What a successful TSIG registration hands back to the UI.
#[derive(Debug, Clone)]
pub struct RegisteredTsig {
    pub key_name: String,
    pub algorithm: String,
    pub secret_base64: String,
    pub dns_zone: String,
    /// Bare host of the node; the publish writer defaults to port 53.
    pub dns_server: String,
    pub expires_at: Option<i64>,
}

/// `s` without any trailing `c`.
pub open spec fn trim_end_char(s: Seq<char>, c: char) -> Seq<char>
    decreases s.len(),
{
    if s.len() > 0 && s.last() == c {
        trim_end_char(s.drop_last(), c)
    } else {
        s
    }
}

/// The endpoint a registration talks to: trimmed, trailing slashes off.
pub open spec fn clean_endpoint(endpoint: Seq<char>) -> Seq<char> {
    trim_end_char(trim_seq(endpoint), '/')
}

/// What validating a registration request yields: the cleaned endpoint
/// and the trimmed subject, or the error.
pub open spec fn registration_request_spec(endpoint: Seq<char>, subject: Seq<char>, passphrase: Seq<char>) -> Result<
    (Seq<char>, Seq<char>),
    ErrorView,
> {
    let e = clean_endpoint(endpoint);
    let s = trim_seq(subject);
    if e.len() == 0 {
        Err(("validation"@, "endpoint must not be empty"@))
    } else if !has_prefix(e, "http://"@) && !has_prefix(e, "https://"@) {
        Err(("validation"@, "endpoint must start with http:// or https://"@))
    } else if s.len() == 0 || !s.contains('@') {
        Err(("validation"@, "subject must look like user@domain"@))
    } else if passphrase.len() == 0 {
        Err(("validation"@, "passphrase must not be empty"@))
    } else {
        Ok((e, s))
    }
}

/// Validate a registration request before any network traffic.
pub fn validate_registration(endpoint: &str, subject: &str, passphrase: &str) -> (r: Result<
    (String, String),
    CommandError,
>)
    ensures
        no_details(r),
        match r {
            Ok(v) => registration_request_spec(endpoint@, subject@, passphrase@) == Ok::<
                (Seq<char>, Seq<char>),
                ErrorView,
            >((v.0@, v.1@)),
            Err(e) => registration_request_spec(endpoint@, subject@, passphrase@) == Err::<
                (Seq<char>, Seq<char>),
                ErrorView,
            >(err_view(e)),
        },
{
    let t = trim(endpoint);
    let tv = chars_of(t.as_str());
    let mut end: usize = tv.len();
    assert(tv@.subrange(0, end as int) =~= tv@);
    while end > 0 && tv[end - 1] == '/'
        invariant
            end <= tv@.len(),
            trim_end_char(tv@, '/') == trim_end_char(tv@.subrange(0, end as int), '/'),
        decreases end,
    {
        assert(tv@.subrange(0, end as int).drop_last() =~= tv@.subrange(0, end - 1));
        end = end - 1;
    }
    let e = slice_string(tv.as_slice(), 0, end);
    proof {
        assert(tv@ == trim_seq(endpoint@));
        assert(trim_end_char(tv@.subrange(0, end as int), '/') == tv@.subrange(0, end as int));
    }
    if e.as_str().is_empty() {
        return Err(err("validation", String::from_str("endpoint must not be empty")));
    }
    let ev = chars_of(e.as_str());
    let http: Vec<char> = vec!['h', 't', 't', 'p', ':', '/', '/'];
    let https: Vec<char> = vec!['h', 't', 't', 'p', 's', ':', '/', '/'];
    proof {
        reveal_strlit("http://");
        reveal_strlit("https://");
        assert(http@ =~= "http://"@);
        assert(https@ =~= "https://"@);
    }
    if !starts_with(ev.as_slice(), http.as_slice()) && !starts_with(ev.as_slice(), https.as_slice()) {
        return Err(
            err("validation", String::from_str("endpoint must start with http:// or https://")),
        );
    }
    let s = trim(subject);
    let sv = chars_of(s.as_str());
    if sv.len() == 0 || !crate::text::contains_char(sv.as_slice(), '@') {
        return Err(err("validation", String::from_str("subject must look like user@domain")));
    }
    if passphrase.is_empty() {
        return Err(err("validation", String::from_str("passphrase must not be empty")));
    }
    Ok((e, s))
}

/// The payload a registration signs: the challenge bytes, the subject,
/// the node name and the version byte.
pub open spec fn registration_payload_spec(challenge: Seq<u8>, subject: Seq<char>, node: Seq<char>) -> Seq<
    u8,
> {
    challenge + vstd::utf8::encode_utf8(subject) + vstd::utf8::encode_utf8(node) + seq![0x01u8]
}

/// Build the payload to sign from the hex challenge the node issued;
/// the error is the hex decoder's when the challenge is not hex.
pub fn registration_payload(challenge_hex: &str, subject: &str, node: &str) -> (r: Result<Vec<u8>, String>)
    ensures
        ({
            let data = vstd::utf8::encode_utf8(challenge_hex@);
            match r {
                Ok(p) => hex_valid(data) && p@ == registration_payload_spec(
                    hex_bytes(data),
                    subject@,
                    node@,
                ),
                Err(e) => !hex_valid(data) && e@ == hex_error_text(data),
            }
        }),
{
    let challenge = match hex_decode(challenge_hex) {
        Ok(c) => c,
        Err(e) => return Err(e),
    };
    let mut payload: Vec<u8> = Vec::new();
    append_bytes(&mut payload, challenge.as_slice());
    append_bytes(&mut payload, subject.as_bytes());
    append_bytes(&mut payload, node.as_bytes());
    payload.push(REGISTRATION_PAYLOAD_VERSION);
    proof {
        assert(payload@ =~= registration_payload_spec(challenge@, subject@, node@));
    }
    Ok(payload)
}

/// The message for a refused confirm: hints for 401, 403, 404 and 409,
/// else the status as `http` displays it.
pub open spec fn confirm_failure_spec(status: u16, status_text: Seq<char>, endpoint: Seq<char>, subject: Seq<char>) -> Seq<
    char,
> {
    if status == 401 {
        "node rejected the signature (401). Re-check the passphrase."@
    } else if status == 403 {
        "subject "@ + subject + " not in the node's allowlist (403)"@
    } else if status == 404 {
        endpoint
            + " does not expose /v1/registration/tsig-confirm (404). Operator must enable DMP_DNS_UPDATE_ENABLED."@
    } else if status == 409 {
        "subject "@ + subject
            + " already owned by a different key (409). Use the same passphrase you registered with."@
    } else {
        "tsig-confirm failed: HTTP "@ + status_text
    }
}

/// The message for a refused confirm.
pub fn confirm_failure_message(status: u16, status_text: &str, endpoint: &str, subject: &str) -> (r:
    String)
    ensures
        r@ == confirm_failure_spec(status, status_text@, endpoint@, subject@),
{
    if status == 401 {
        String::from_str("node rejected the signature (401). Re-check the passphrase.")
    } else if status == 403 {
        let mut m = String::from_str("subject ");
        m.append(subject);
        m.append(" not in the node's allowlist (403)");
        m
    } else if status == 404 {
        let mut m = String::from_str(endpoint);
        m.append(
            " does not expose /v1/registration/tsig-confirm (404). Operator must enable DMP_DNS_UPDATE_ENABLED.",
        );
        m
    } else if status == 409 {
        let mut m = String::from_str("subject ");
        m.append(subject);
        m.append(
            " already owned by a different key (409). Use the same passphrase you registered with.",
        );
        m
    } else {
        let mut m = String::from_str("tsig-confirm failed: HTTP ");
        m.append(status_text);
        m
    }
}

/// The registration result from a confirm response: the secret
/// re-encoded from hex to base64 and the node's host as DNS server; the
/// error is the hex decoder's when the secret is not hex.
pub fn registered_tsig(
    key_name: String,
    secret_hex: &str,
    algorithm: String,
    zone: String,
    expires_at: Option<i64>,
    endpoint: &str,
) -> (r: Result<RegisteredTsig, String>)
    ensures
        ({
            let data = vstd::utf8::encode_utf8(secret_hex@);
            match r {
                Ok(t) => {
                    &&& hex_valid(data)
                    &&& t.key_name == key_name
                    &&& t.algorithm == algorithm
                    &&& t.secret_base64@ == b64_encode_spec(hex_bytes(data))
                    &&& t.dns_zone == zone
                    &&& t.dns_server@ == strip_endpoint_spec(endpoint@)
                    &&& t.expires_at == expires_at
                },
                Err(e) => !hex_valid(data) && e@ == hex_error_text(data),
            }
        }),
{
    let secret = match hex_decode(secret_hex) {
        Ok(b) => b,
        Err(e) => return Err(e),
    };
    let secret_base64 = b64_encode(secret.as_slice());
    let dns_server = strip_endpoint_to_host(endpoint);
    Ok(RegisteredTsig {
        key_name,
        algorithm,
        secret_base64,
        dns_zone: zone,
        dns_server,
        expires_at,
    })
}

/// The KDF salt a registration re-derives the signing key with: the
/// active identity's recorded salt, decoded, or none (the SDK default).
pub fn registration_salt(recorded: Option<&str>) -> (r: Result<Option<Vec<u8>>, CommandError>)
    ensures
        no_details(r),
        match recorded {
            None => r matches Ok(v) && v is None,
            Some(b) => match b64_decode(b@) {
                Ok(bytes) => r matches Ok(v) && v matches Some(x) && x@ == bytes,
                Err(e) => r matches Err(x) && err_view(x) == (
                    "internal"@,
                    "kdf_salt_base64 in active identity config is malformed: "@ + e,
                ),
            },
        },
{
    match recorded {
        None => Ok(None),
        Some(b) => match b64_decode_str(b) {
            Ok(bytes) => Ok(Some(bytes)),
            Err(e) => {
                let mut m = String::from_str(
                    "kdf_salt_base64 in active identity config is malformed: ",
                );
                m.append(e.as_str());
                Err(err("internal", m))
            },
        },
    }
}

/// With an identity unlocked, the re-derived signing key must be its
/// own; a mismatch means the passphrase is wrong.
pub fn check_signing_key(active_spk_hex: Option<&str>, derived_spk_hex: &str) -> (r: Result<
    (),
    CommandError,
>)
    ensures
        no_details(r),
        r is Ok <==> (active_spk_hex matches Some(a) ==> a@ == derived_spk_hex@),
        r matches Err(e) ==> err_view(e) == (
            "validation"@,
            "passphrase does not match the active identity's signing key"@,
        ),
{
    match active_spk_hex {
        Some(a) => {
            if !crate::text::str_eq(a, derived_spk_hex) {
                return Err(
                    err(
                        "validation",
                        String::from_str("passphrase does not match the active identity's signing key"),
                    ),
                );
            }
            Ok(())
        },
        None => Ok(()),
    }
}

/// Refuse a blank zone; returns it trimmed.
pub fn discovery_zone(zone: &str) -> (r: Result<String, CommandError>)
    ensures
        no_details(r),
        match r {
            Ok(z) => z@ == trim_seq(zone@) && z@.len() > 0,
            Err(e) => trim_seq(zone@).len() == 0 && err_view(e) == (
                "validation"@,
                "zone must not be empty"@,
            ),
        },
{
    let z = trim(zone);
    if z.as_str().is_empty() {
        return Err(err("validation", String::from_str("zone must not be empty")));
    }
    Ok(z)
}

/// Zones a directory node adds are new: distinct, and none already
/// listed.
proof fn lemma_fresh_zones_new(seen: Seq<Seq<char>>, zones: Seq<Seq<char>>)
    requires
        crate::inbox::distinct(seen),
    ensures
        crate::inbox::distinct(seen + fresh_zones(seen, zones)),
    decreases zones.len(),
{
    if zones.len() > 0 {
        lemma_fresh_zones_new(seen, zones.drop_last());
        let acc = fresh_zones(seen, zones.drop_last());
        let z = trim_seq(zones.last());
        if !(z.len() == 0 || (seen + acc).contains(z)) {
            let all = seen + acc.push(z);
            assert(all =~= (seen + acc).push(z));
            assert forall|i: int, j: int| 0 <= i < j < all.len() implies all[i] != all[j] by {
                if j == all.len() - 1 {
                    assert((seen + acc)[i] == all[i]);
                }
            }
        }
    }
}

/// The zones of directory rows for `z` are `z`.
proof fn lemma_row_zones_of_map(node: DirectoryNode, zones: Seq<Seq<char>>, now: u64)
    ensures
        row_zones(zones.map_values(|z: Seq<char>| directory_row(node, z, now))) == zones,
{
    assert(row_zones(zones.map_values(|z: Seq<char>| directory_row(node, z, now))) =~= zones);
}

/// The node list never names a zone twice: the directory only adds
/// zones not listed before it.
pub proof fn law_known_node_zones_distinct(seen: Seq<Seq<char>>, nodes: Seq<DirectoryNode>, now: u64)
    requires
        crate::inbox::distinct(seen),
    ensures
        crate::inbox::distinct(seen + row_zones(directory_rows(seen, nodes, now))),
    decreases nodes.len(),
{
    if nodes.len() == 0 {
        assert(row_zones(directory_rows(seen, nodes, now)) =~= Seq::<Seq<char>>::empty());
        assert(seen + Seq::<Seq<char>>::empty() =~= seen);
    } else {
        law_known_node_zones_distinct(seen, nodes.drop_last(), now);
        let prev = directory_rows(seen, nodes.drop_last(), now);
        let node = nodes.last();
        let base = seen + row_zones(prev);
        let added = fresh_zones(base, strs(node.last_seen_via@));
        lemma_fresh_zones_new(base, strs(node.last_seen_via@));
        lemma_row_zones_of_map(node, added, now);
        let rows = prev + added.map_values(|z: Seq<char>| directory_row(node, z, now));
        assert(row_zones(rows) =~= row_zones(prev) + row_zones(
            added.map_values(|z: Seq<char>| directory_row(node, z, now)),
        ));
        assert(seen + row_zones(rows) =~= base + added);
    }
}

/// Every zone a merge adds for a directory node is one of that node's
/// `last_seen_via` zones, trimmed, non-blank and not listed before.
proof fn lemma_fresh_zone_source(seen: Seq<Seq<char>>, zones: Seq<Seq<char>>, z: Seq<char>)
    requires
        fresh_zones(seen, zones).contains(z),
    ensures
        exists|w: int| 0 <= w < zones.len() && trim_seq(#[trigger] zones[w]) == z,
        z.len() > 0,
        !seen.contains(z),
    decreases zones.len(),
{
    let acc = fresh_zones(seen, zones.drop_last());
    let t = trim_seq(zones.last());
    if acc.contains(z) {
        lemma_fresh_zone_source(seen, zones.drop_last(), z);
        let w = choose|w: int| 0 <= w < zones.drop_last().len() && trim_seq(#[trigger] zones.drop_last()[w]) == z;
        assert(zones[w] == zones.drop_last()[w]);
    } else {
        assert(fresh_zones(seen, zones) == acc.push(t));
        let k = choose|k: int| 0 <= k < acc.push(t).len() && acc.push(t)[k] == z;
        assert(k == acc.len());
        assert(z == t);
        assert(trim_seq(zones[zones.len() - 1]) == z);
        if seen.contains(z) {
            let i = choose|i: int| 0 <= i < seen.len() && seen[i] == z;
            assert((seen + acc)[i] == z);
        }
    }
}

/// Whether `row` is what a directory node among `nodes` contributes for
/// one of its `last_seen_via` zones: the zone trimmed, non-blank and not
/// in `seen`; the node's operator label; a description naming its
/// endpoint; its live status (endpoint, version, the zone and the time to
/// staleness) exactly while it has not expired; and the directory source.
pub open spec fn from_directory(seen: Seq<Seq<char>>, nodes: Seq<DirectoryNode>, now: u64, row: StatusView) -> bool {
    exists|j: int, w: int|
        0 <= j < nodes.len() && 0 <= w < nodes[j].last_seen_via@.len() && {
            let node = nodes[j];
            let z = trim_seq((#[trigger] nodes[j].last_seen_via@[w])@);
            &&& z.len() > 0
            &&& !seen.contains(z)
            &&& row.0 == z
            &&& row.1 == operator_label_spec(node)
            &&& row.2 == "Discovered via dnsmeshprotocol.org directory · "@ + node.endpoint@
            &&& row.4 == "directory"@
            &&& node.exp > now ==> row.3 == Some(
                (node.endpoint@, Seq::<char>::empty(), node.version@, z, stale_in(node.exp, now)),
            )
            &&& node.exp <= now ==> row.3 is None
        }
}

/// Every row the directory adds after the listed zones `seen` is a
/// directory node's row for one of its own zones, carrying that node's
/// fields.
pub proof fn law_directory_rows_carry_their_node(seen: Seq<Seq<char>>, nodes: Seq<DirectoryNode>, now: u64)
    ensures
        forall|k: int|
            0 <= k < directory_rows(seen, nodes, now).len() ==> from_directory(
                seen,
                nodes,
                now,
                #[trigger] directory_rows(seen, nodes, now)[k],
            ),
    decreases nodes.len(),
{
    if nodes.len() > 0 {
        let init = nodes.drop_last();
        law_directory_rows_carry_their_node(seen, init, now);
        let prev = directory_rows(seen, init, now);
        let node = nodes.last();
        let base = seen + row_zones(prev);
        let added = fresh_zones(base, strs(node.last_seen_via@));
        let rows = directory_rows(seen, nodes, now);
        assert(rows == prev + added.map_values(|z: Seq<char>| directory_row(node, z, now)));
        assert forall|k: int| 0 <= k < rows.len() implies from_directory(seen, nodes, now, #[trigger] rows[k]) by {
            if k < prev.len() {
                assert(rows[k] == prev[k]);
                assert(from_directory(seen, init, now, prev[k]));
                let (j, w) = choose|j: int, w: int|
                    0 <= j < init.len() && 0 <= w < init[j].last_seen_via@.len() && {
                        let nd = init[j];
                        let z = trim_seq((#[trigger] init[j].last_seen_via@[w])@);
                        &&& z.len() > 0
                        &&& !seen.contains(z)
                        &&& prev[k].0 == z
                        &&& prev[k].1 == operator_label_spec(nd)
                        &&& prev[k].2 == "Discovered via dnsmeshprotocol.org directory · "@
                            + nd.endpoint@
                        &&& prev[k].4 == "directory"@
                        &&& nd.exp > now ==> prev[k].3 == Some(
                            (nd.endpoint@, Seq::<char>::empty(), nd.version@, z, stale_in(nd.exp, now)),
                        )
                        &&& nd.exp <= now ==> prev[k].3 is None
                    };
                assert(nodes[j] == init[j]);
                assert(nodes[j].last_seen_via@[w] == init[j].last_seen_via@[w]);
            } else {
                let z = added[k - prev.len()];
                assert(rows[k] == directory_row(node, z, now));
                assert(added.contains(z));
                lemma_fresh_zone_source(base, strs(node.last_seen_via@), z);
                let w = choose|w: int|
                    0 <= w < strs(node.last_seen_via@).len() && trim_seq(
                        #[trigger] strs(node.last_seen_via@)[w],
                    ) == z;
                let j = nodes.len() - 1;
                assert(nodes[j] == node);
                assert(strs(node.last_seen_via@)[w] == node.last_seen_via@[w]@);
                if seen.contains(z) {
                    let i = choose|i: int| 0 <= i < seen.len() && seen[i] == z;
                    assert(base[i] == z);
                }
                assert(trim_seq((nodes[j].last_seen_via@[w])@) == z);
            }
        }
    }
}

/// The curated zones are distinct.
pub proof fn lemma_curated_zones_distinct()
    ensures
        crate::inbox::distinct(curated_meta().map_values(|m: (Seq<char>, Seq<char>, Seq<char>)| m.0)),
{
    reveal_strlit("dmp.dnsmesh.io");
    reveal_strlit("dmp.dnsmesh.pro");
    let z = curated_meta().map_values(|m: (Seq<char>, Seq<char>, Seq<char>)| m.0);
    assert(z[0] != z[1]) by {
        assert(z[0][4] != z[1][4] || z[0].len() != z[1].len());
    }
}

} // verus!
