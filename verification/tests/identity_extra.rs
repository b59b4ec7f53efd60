use carbide::identity_url::ValidatedIdentityUrl;
use carbide::tenant_identity_policy::{ValidatedIssuer, ValidatedSubjectPrefix, ValidatedTokenEndpoint};
use carbide::trust_domain_allowlist::{TrustDomainAllowList, TrustDomainAllowlistPattern};

#[test]
fn raw_text_checks_in_order() {
    let msg = |raw: &str| ValidatedIdentityUrl::parse(raw).err().unwrap().to_string();
    assert_eq!(msg(""), "url is empty");
    assert_eq!(
        msg(&format!("https://a.example/{}", "x".repeat(2100))),
        "url exceeds maximum length (2048 bytes)"
    );
    assert_eq!(msg("https://é.example/"), "must contain only ASCII characters");
    assert_eq!(
        msg("https://a.example/\u{7f}"),
        "must not contain control characters (disallowed)"
    );
    assert_eq!(
        msg("https://a.example/#x"),
        "contains disallowed characters: must not contain spaces, '\\\\', '%', or '#'"
    );
    assert_eq!(msg("nohost"), "invalid URL (relative URL without a base)");
    assert_eq!(msg("https://a.example/?q"), "query is not allowed");
    assert_eq!(msg("https://u:p@a.example/"), "URL must not contain userinfo");
    assert_eq!(msg("spiffe:/path"), "url must have a host: spiffe:/path");
    assert_eq!(
        msg(&format!("https://{}.example/", "a".repeat(250))),
        "hostname part exceeds maximum length (253 bytes)"
    );
}

#[test]
fn canonical_form_keeps_port_and_drops_root_path() {
    let u = ValidatedIdentityUrl::parse("HTTPS://Host.Example:8443/").ok().unwrap();
    assert_eq!(u.canonicalized(), "https://host.example:8443");
    let u = ValidatedIdentityUrl::parse("spiffe://TD.Example/a/b").ok().unwrap();
    assert_eq!(u.trust_domain, "td.example");
    assert_eq!(u.canonicalized(), "spiffe://td.example/a/b");
}

#[test]
fn scheme_error_lists_allowed_schemes() {
    let err = ValidatedIssuer::parse("ftp://issuer.example/").err().unwrap().to_string();
    assert_eq!(
        err,
        "Invalid issuer URL: Unexpected scheme ftp: supported: [\"http\", \"https\", \"spiffe\"]"
    );
    let err = ValidatedTokenEndpoint::parse("spiffe://t.example").err().unwrap().to_string();
    assert_eq!(
        err,
        "Invalid token endpoint URL: Unexpected scheme spiffe: supported: [\"http\", \"https\"]"
    );
}

#[test]
fn spiffe_path_errors() {
    let issuer = ValidatedIssuer::parse("https://issuer.example").ok().unwrap();
    let err = |raw: &str| ValidatedSubjectPrefix::parse(raw, &issuer).err().unwrap().to_string();
    assert_eq!(
        err("spiffe://issuer.example/a//b"),
        "Invalid subject prefix URL: path must not contain empty segments"
    );
    assert_eq!(
        err("spiffe://issuer.example/a/"),
        "Invalid subject prefix URL: path must not end with '/' (use spiffe://<td> for root only)"
    );
    assert_eq!(
        err("spiffe://issuer.example/a/~b"),
        "Invalid subject prefix URL: path segment \"~b\" must match [a-zA-Z0-9._-]+"
    );
    assert_eq!(
        err("spiffe://issuer.example:8443/a"),
        "Invalid subject prefix URL: must not include a port"
    );
    assert_eq!(
        err("spiffe://other.example/a"),
        "Subject prefix trust domain \"other.example\" does not match issuer trust domain (expected \"issuer.example\")"
    );
}

#[test]
fn subject_prefix_lies_within_issuer_trust_domain() {
    let issuer = ValidatedIssuer::parse("https://Issuer.Example/oidc").ok().unwrap();
    assert_eq!(issuer.as_str(), "https://issuer.example/oidc");
    let p = ValidatedSubjectPrefix::parse("spiffe://issuer.example/ns/prod", &issuer).ok().unwrap();
    assert!(p.as_str().starts_with("spiffe://issuer.example"));
    let p = ValidatedSubjectPrefix::parse("", &issuer).ok().unwrap();
    assert_eq!(p.into_string(), "spiffe://issuer.example");
}

#[test]
fn allowlist_error_texts() {
    let text = |raw: &str| TrustDomainAllowlistPattern::from_str(raw).err().unwrap().to_string();
    assert_eq!(text("  .  "), "Empty entry (after trim)");
    assert_eq!(text("**.a*"), "invalid pattern: **.a*");
    assert_eq!(text("a*b"), "wildcards only as `*.` or `**.` prefix (a*b)");
    assert_eq!(text(&"a".repeat(513)), "pattern exceeds 512 bytes: 513");
}

#[test]
fn allowlist_pattern_text_round_trip() {
    for raw in ["Example.COM.", "*.Tenant.Example", "  **.corp.internal "] {
        let p = TrustDomainAllowlistPattern::from_str(raw).ok().unwrap();
        let text = p.to_pattern_string();
        let q = TrustDomainAllowlistPattern::from_str(&text).ok().unwrap();
        assert_eq!(q.to_pattern_string(), text);
    }
    let p = TrustDomainAllowlistPattern::from_str("*.tenant.example").ok().unwrap();
    assert_eq!(p.to_pattern_string(), "*.tenant.example");
}

#[test]
fn allowlist_laws_on_examples() {
    let empty = TrustDomainAllowList::new();
    assert!(empty.allows("anything.example"));
    let p = TrustDomainAllowlistPattern::from_str("**.Corp.Internal").ok().unwrap();
    assert!(p.matches("corp.internal"));
    assert_eq!(p.matches("A.CORP.INTERNAL"), p.matches("a.corp.internal"));
    assert_eq!(p.matches("a.corp.internal."), p.matches("a.corp.internal"));
    let s = TrustDomainAllowlistPattern::from_str("*.net.example").ok().unwrap();
    assert!(!s.matches("net.example"));
    let e = TrustDomainAllowlistPattern::from_str(" Exact.Example. ").ok().unwrap();
    assert!(e.matches(" Exact.Example. "));
    let list = TrustDomainAllowList::parse(&["a.example", "*.b.example"]).ok().unwrap();
    assert_eq!(list.entries().len(), 2);
    assert!(!list.allows(""));
}
