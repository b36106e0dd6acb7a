use dnsmesh_app::nodes::{
    check_signing_key, confirm_failure_message, default_tsig_algo_for_response,
    directory_operator_label, discovered_nodes, discovery_zone, doctor_no_identity,
    doctor_report, effective_resolvers, endpoint_host, heartbeat_rrset_name, merge_known_nodes,
    operator_for, registered_tsig, registration_payload, registration_salt,
    strip_endpoint_to_host, validate_registration, well_known_nodes, CheckStatus, DirectoryGeo,
    DirectoryNode, DiscoveredNode, HeartbeatFacts, ResolverProbe, HEARTBEAT_RRSET_PREFIX,
};

#[test]
fn rrset_prefix_matches_python_layout() {
    assert_eq!(HEARTBEAT_RRSET_PREFIX, "_dnsmesh-heartbeat.");
    assert_eq!(
        format!("{HEARTBEAT_RRSET_PREFIX}{}", "dmp.dnsmesh.io"),
        "_dnsmesh-heartbeat.dmp.dnsmesh.io",
    );
    assert_eq!(heartbeat_rrset_name("dmp.dnsmesh.io"), "_dnsmesh-heartbeat.dmp.dnsmesh.io");
}

#[test]
fn well_known_nodes_population() {
    let nodes = well_known_nodes();
    assert!(
        nodes.len() >= 2,
        "curated node list must ship with at least two entries; got {}",
        nodes.len(),
    );
    for node in &nodes {
        assert!(!node.zone.is_empty(), "zone must not be empty");
        assert!(!node.operator_name.is_empty(), "operator_name must not be empty");
        assert!(!node.description.is_empty(), "description must not be empty");
    }
}

#[test]
fn endpoint_host_strips_scheme_and_path() {
    assert_eq!(endpoint_host("https://dnsmesh.io"), "dnsmesh.io");
    assert_eq!(endpoint_host("https://dnsmesh.io/"), "dnsmesh.io");
    assert_eq!(endpoint_host("https://dnsmesh.io/v1/foo"), "dnsmesh.io",);
    assert_eq!(endpoint_host("dnsmesh.io"), "dnsmesh.io");
}

#[test]
fn directory_operator_label_format() {
    let with_geo = DirectoryNode {
        endpoint: "https://dnsmesh.io".into(),
        version: "0.6.6".into(),
        exp: 0,
        last_seen_via: vec!["dmp.dnsmesh.io".into()],
        geo: Some(DirectoryGeo {
            country: "United States".into(),
            country_code: "US".into(),
            city: "Santa Clara".into(),
        }),
    };
    assert_eq!(directory_operator_label(&with_geo), "dnsmesh.io · Santa Clara, US",);

    let no_geo = DirectoryNode {
        endpoint: "https://example.com".into(),
        version: String::new(),
        exp: 0,
        last_seen_via: vec![],
        geo: None,
    };
    assert_eq!(directory_operator_label(&no_geo), "example.com");
}

#[test]
fn directory_operator_label_falls_back_through_geo_fields() {
    let node = |city: &str, cc: &str, country: &str| DirectoryNode {
        endpoint: "https://n.example/x".into(),
        version: String::new(),
        exp: 0,
        last_seen_via: vec![],
        geo: Some(DirectoryGeo { country: country.into(), country_code: cc.into(), city: city.into() }),
    };
    assert_eq!(directory_operator_label(&node("Oslo", " ", "Norway")), "n.example · Oslo, Norway");
    assert_eq!(directory_operator_label(&node("", "NO", "Norway")), "n.example · Norway");
    assert_eq!(directory_operator_label(&node("", "NO", "")), "n.example");
}

#[test]
fn strip_endpoint_to_host_handles_common_shapes() {
    assert_eq!(strip_endpoint_to_host("https://dnsmesh.pro"), "dnsmesh.pro");
    assert_eq!(strip_endpoint_to_host("https://dnsmesh.pro/"), "dnsmesh.pro",);
    assert_eq!(strip_endpoint_to_host("https://dnsmesh.pro:8443"), "dnsmesh.pro",);
    assert_eq!(strip_endpoint_to_host("http://node.example.com:80/v1"), "node.example.com",);
    assert_eq!(strip_endpoint_to_host("https://[::1]:8443"), "::1");
    assert_eq!(strip_endpoint_to_host("https://[::1]"), "::1");
}

#[test]
fn strip_endpoint_leaves_bare_ipv6_alone() {
    assert_eq!(strip_endpoint_to_host("::1"), "::1");
    assert_eq!(strip_endpoint_to_host("[::1"), "[::1");
}

#[test]
fn operators_of_well_known_resolvers() {
    assert_eq!(operator_for("8.8.4.4"), "Google");
    assert_eq!(operator_for("1.0.0.1"), "Cloudflare");
    assert_eq!(operator_for("149.112.112.112"), "Quad9");
    assert_eq!(operator_for("208.67.220.220"), "OpenDNS");
    assert_eq!(operator_for("10.0.0.1"), "Unknown");
}

#[test]
fn effective_resolvers_prefers_nonblank_overrides() {
    let wk = vec!["8.8.8.8".to_string(), "1.1.1.1".to_string()];
    let over = vec![" 9.9.9.9 ".to_string(), "  ".to_string()];
    let r = effective_resolvers(Some(&over), &wk);
    assert_eq!(r.addresses, vec!["9.9.9.9".to_string()]);
    assert_eq!(r.source, "override");
    let blank = vec![" ".to_string()];
    let r = effective_resolvers(Some(&blank), &wk);
    assert_eq!(r.addresses, wk);
    assert_eq!(r.source, "well_known");
    assert_eq!(effective_resolvers(None, &wk).source, "well_known");
}

#[test]
fn doctor_overall_is_the_worst_check() {
    let r = doctor_report("alice", "mesh.local", true, ResolverProbe::Reachable(3), None);
    assert_eq!(r.overall, CheckStatus::Pass);
    assert_eq!(r.checks[0].message, "active: alice@mesh.local");
    assert_eq!(r.checks[1].message, "reachable (3 upstream(s))");
    assert_eq!(r.checks[3].message, "found at alice@mesh.local");
    let r = doctor_report("alice", "mesh.local", false, ResolverProbe::LookupFailed("t".into()), None);
    assert_eq!(r.overall, CheckStatus::Warn);
    let r = doctor_report("alice", "mesh.local", true, ResolverProbe::PoolFailed("x".into()), Some("nx".into()));
    assert_eq!(r.overall, CheckStatus::Fail);
    assert_eq!(r.checks[1].message, "cannot build well-known pool: x");
    assert_eq!(r.checks[3].message, "not yet published at alice@mesh.local (nx)");
    let none = doctor_no_identity();
    assert_eq!(none.overall, CheckStatus::Fail);
    assert_eq!(none.checks.len(), 1);
}

fn hb(endpoint: &str, exp: u64) -> Option<HeartbeatFacts> {
    Some(HeartbeatFacts {
        endpoint: endpoint.into(),
        operator_spk: vec![0xab; 2],
        version: "1".into(),
        claim_provider_zone: String::new(),
        exp,
    })
}

#[test]
fn discovered_nodes_are_freshest_first_and_drop_stale() {
    let now = 1000;
    let out = discovered_nodes(vec![hb("a", 1100), None, hb("b", 1500), hb("c", 900), hb("d", 1100)], now);
    let eps: Vec<&str> = out.iter().map(|n| n.endpoint.as_str()).collect();
    assert_eq!(eps, vec!["b", "a", "d"]);
    assert_eq!(out[0].seconds_until_stale, 500);
    assert_eq!(out[0].operator_spk_hex, "abab");
}

#[test]
fn merge_lists_curated_first_then_new_directory_zones() {
    let live = vec![
        Some(DiscoveredNode {
            endpoint: "https://dnsmesh.io".into(),
            operator_spk_hex: "00".into(),
            version: "0.6.6".into(),
            claim_provider_zone: "dmp.dnsmesh.io".into(),
            seconds_until_stale: 10,
        }),
        None,
    ];
    let dir = vec![DirectoryNode {
        endpoint: "https://x.example".into(),
        version: "2".into(),
        exp: 2000,
        last_seen_via: vec!["dmp.dnsmesh.io".into(), " z.example ".into(), "z.example".into(), "".into()],
        geo: None,
    }];
    let out = merge_known_nodes(live, dir, 1000);
    let zones: Vec<&str> = out.iter().map(|n| n.zone.as_str()).collect();
    assert_eq!(zones, vec!["dmp.dnsmesh.io", "dmp.dnsmesh.pro", "z.example"]);
    assert_eq!(out[0].source, "curated");
    assert!(out[1].live.is_none());
    assert_eq!(out[2].source, "directory");
    assert_eq!(out[2].operator_name, "x.example");
    assert_eq!(out[2].description, "Discovered via dnsmeshprotocol.org directory · https://x.example");
    assert_eq!(out[2].live.as_ref().unwrap().seconds_until_stale, 1000);
}

#[test]
fn registration_validation_messages() {
    let (e, s) = validate_registration(" https://node.example/// ", " a@b ", "pw").unwrap();
    assert_eq!(e, "https://node.example");
    assert_eq!(s, "a@b");
    assert_eq!(validate_registration("  ", "a@b", "pw").unwrap_err().message, "endpoint must not be empty");
    assert_eq!(
        validate_registration("ftp://x", "a@b", "pw").unwrap_err().message,
        "endpoint must start with http:// or https://"
    );
    assert_eq!(validate_registration("http://x", "ab", "pw").unwrap_err().message, "subject must look like user@domain");
    assert_eq!(validate_registration("http://x", "a@b", "").unwrap_err().message, "passphrase must not be empty");
}

#[test]
fn registration_payload_layout() {
    let p = registration_payload("0a0b", "a@b", "n").unwrap();
    assert_eq!(p, vec![0x0a, 0x0b, b'a', b'@', b'b', b'n', 0x01]);
    assert!(registration_payload("zz", "a@b", "n").is_err());
}

#[test]
fn confirm_failure_hints() {
    assert_eq!(
        confirm_failure_message(401, "401 Unauthorized", "https://e", "a@b"),
        "node rejected the signature (401). Re-check the passphrase."
    );
    assert_eq!(confirm_failure_message(403, "", "https://e", "a@b"), "subject a@b not in the node's allowlist (403)");
    assert_eq!(
        confirm_failure_message(500, "500 Internal Server Error", "https://e", "a@b"),
        "tsig-confirm failed: HTTP 500 Internal Server Error"
    );
}

#[test]
fn registered_tsig_reencodes_the_secret() {
    let t = registered_tsig("k.".into(), "deadbeef", "hmac-sha256".into(), "z".into(), Some(5), "https://n.example:8443/x").unwrap();
    assert_eq!(t.secret_base64, "3q2+7w==");
    assert_eq!(t.dns_server, "n.example");
    assert!(registered_tsig("k.".into(), "xyz", "a".into(), "z".into(), None, "https://n").is_err());
}

#[test]
fn registration_helpers() {
    assert_eq!(default_tsig_algo_for_response(), "hmac-sha256");
    assert_eq!(registration_salt(Some("AAECAwQFBgc=")).unwrap().unwrap(), vec![0, 1, 2, 3, 4, 5, 6, 7]);
    assert_eq!(registration_salt(Some("***")).unwrap_err().kind, "internal");
    assert!(registration_salt(None).unwrap().is_none());
    assert!(check_signing_key(Some("ab"), "ab").is_ok());
    assert!(check_signing_key(None, "ab").is_ok());
    assert_eq!(check_signing_key(Some("ab"), "cd").unwrap_err().kind, "validation");
    assert_eq!(discovery_zone("  z ").unwrap(), "z");
    assert_eq!(discovery_zone(" ").unwrap_err().message, "zone must not be empty");
}
