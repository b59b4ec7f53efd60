use carbide::identity_url::MAX_URL_BYTES;
use carbide::tenant_identity_policy::{ValidatedIssuer, ValidatedSubjectPrefix, ValidatedTokenEndpoint};
use carbide::trust_domain_allowlist::TrustDomainAllowList;

fn resolve_identity(issuer: &str, proto: Option<&str>) -> Result<String, String> {
    let issuer = ValidatedIssuer::parse(issuer).map_err(|e| e.to_string())?;
    Ok(ValidatedSubjectPrefix::parse(proto.unwrap_or_default(), &issuer)
        .map_err(|e| e.to_string())?
        .into_string())
}

#[test]
fn issuer_normalization_uses_url_parser() {
    assert_eq!(
        ValidatedIssuer::parse("HTTP://Issuer.EXAMPLE/path").ok().unwrap().identity,
        "http://issuer.example/path"
    );
    assert_eq!(
        ValidatedIssuer::parse("SpIfFe://Issuer.EXAMPLE/bundle").ok().unwrap().identity,
        "spiffe://issuer.example/bundle"
    );
    assert_eq!(
        ValidatedIssuer::parse("https://Issuer.EXAMPLE:8443/").ok().unwrap().trust_domain,
        "issuer.example"
    );
}

#[test]
fn issuer_preserves_path_case() {
    assert_eq!(
        ValidatedIssuer::parse("https://Issuer.EXAMPLE/OIDC/Callback").ok().unwrap().identity,
        "https://issuer.example/OIDC/Callback"
    );
}

#[test]
fn issuer_rejects_non_canonical_url_parts() {
    let err = ValidatedIssuer::parse("https://issuer.example/?q=1").err().unwrap().to_string();
    assert!(err.contains("query"), "{err}");

    let err = ValidatedIssuer::parse("https://user@issuer.example/").err().unwrap().to_string();
    assert!(err.contains("userinfo"), "{err}");

    let err = ValidatedIssuer::parse("https://127.0.0.1/").err().unwrap().to_string();
    assert!(err.contains("IP"), "{err}");
}

#[test]
fn issuer_requires_expected_scheme() {
    let err = ValidatedIssuer::parse("issuer.example").err().unwrap().to_string();
    assert!(err.contains("relative URL without a base"), "{err}");

    let err = ValidatedIssuer::parse("ftp://issuer.example/").err().unwrap().to_string();
    assert!(err.contains("http") || err.contains("spiffe"), "{err}");
}

#[test]
fn subject_prefix_defaults_to_spiffe_trust_domain() {
    assert_eq!(
        resolve_identity("https://my.idp.example", None).unwrap(),
        "spiffe://my.idp.example"
    );
    assert_eq!(
        resolve_identity("spiffe://my.idp.example/ns/x", None).unwrap(),
        "spiffe://my.idp.example"
    );
}

#[test]
fn subject_prefix_is_canonicalized_from_url_components() {
    let prefix = resolve_identity(
        "https://issuer.example",
        Some("spiffe://ISSUER.EXAMPLE/workload"),
    )
    .unwrap();
    assert_eq!(prefix, "spiffe://issuer.example/workload");
}

#[test]
fn subject_prefix_preserves_path_case() {
    let prefix = resolve_identity(
        "https://issuer.example",
        Some("spiffe://ISSUER.EXAMPLE/Workload/NodeA"),
    )
    .unwrap();
    assert_eq!(prefix, "spiffe://issuer.example/Workload/NodeA");
}

#[test]
fn subject_prefix_rejects_bad_trust_domain_or_scheme() {
    let err =
        resolve_identity("https://issuer.example", Some("spiffe://other.example")).unwrap_err();
    assert!(err.contains("does not match"), "{err}");

    let err = resolve_identity(
        "https://issuer.example",
        Some("https://issuer.example/path"),
    )
    .unwrap_err();
    assert!(err.contains("spiffe://"), "{err}");
}

#[test]
fn subject_prefix_rejects_non_canonical_forms() {
    for raw in [
        "spiffe://issuer.example/a%2Fb",
        "spiffe://issuer.example/a\\b",
        "spiffe://issuer.example/a b",
        "spiffe://issuer.example/a/",
        "spiffe://issuer.example/a//b",
        "spiffe://issuer.example/./a",
        "spiffe://issuer.example/../a",
        "spiffe://issuer.example:8443/a",
    ] {
        let err = resolve_identity("https://issuer.example", Some(raw)).unwrap_err();
        assert!(!err.is_empty(), "{raw}");
    }
}

#[test]
fn subject_prefix_length_limit_is_enforced() {
    let base = "spiffe://issuer.example";
    let prefix = format!(
        "{base}{}",
        "x".repeat(MAX_URL_BYTES.saturating_sub(base.len()) + 1)
    );
    let err = resolve_identity("https://issuer.example", Some(&prefix)).unwrap_err();
    assert!(err.contains("maximum length"), "{err}");
}

#[test]
fn allowlist_matching_and_validation_work() {
    let list = vec![
        "idp.example.com",
        "*.tenant.example.net",
        "**.corp.internal",
    ];
    let patterns = TrustDomainAllowList::parse(&list).ok().unwrap();

    assert!(patterns.allows("idp.example.com"));
    assert!(patterns.allows("auth.tenant.example.net"));
    assert!(patterns.allows("a.b.corp.internal"));
    assert!(!patterns.allows("auth.app.tenant.example.net"));
    assert!(!patterns.allows("corp.internal.evil.com"));
}

#[test]
fn allowlist_matches_apex_trailing_dot_and_mixed_case() {
    let patterns =
        TrustDomainAllowList::parse(&["  LOGIN.EXAMPLE.COM.  ", "**.Corp.Internal"]).ok().unwrap();

    assert!(patterns.allows("login.example.com"));
    assert!(patterns.allows("LOGIN.EXAMPLE.COM."));
    assert!(patterns.allows("corp.internal"));
    assert!(patterns.allows("A.B.CORP.INTERNAL"));
}

#[test]
fn allowlist_single_star_only_matches_one_label() {
    let patterns = TrustDomainAllowList::parse(&["*.something.net"]).ok().unwrap();

    assert!(patterns.allows("auth.something.net"));
    assert!(!patterns.allows("something.net"));
    assert!(!patterns.allows("a.b.something.net"));
    assert!(!patterns.allows("notsomething.net"));
}

#[test]
fn allowlist_double_star_requires_dot_boundary() {
    let patterns = TrustDomainAllowList::parse(&["**.internal.example"]).ok().unwrap();

    assert!(patterns.allows("internal.example"));
    assert!(patterns.allows("x.internal.example"));
    assert!(!patterns.allows("api.internal.example.com"));
    assert!(!patterns.allows("not-relevant.internal.example.evil.com"));
}

#[test]
fn allowlist_rejects_invalid_patterns() {
    assert!(TrustDomainAllowList::parse(&["*"]).is_err());
    assert!(TrustDomainAllowList::parse(&["**"]).is_err());
    assert!(TrustDomainAllowList::parse(&["*."]).is_err());
    assert!(TrustDomainAllowList::parse(&["**."]).is_err());
    assert!(TrustDomainAllowList::parse(&["foo*bar"]).is_err());
    assert!(TrustDomainAllowList::parse(&["**.foo.*.com"]).is_err());
    assert!(TrustDomainAllowList::parse(&["*.foo*bar.com"]).is_err());
    assert!(TrustDomainAllowList::parse(&["   "]).is_err());
    assert!(TrustDomainAllowList::parse(&["  \t "]).is_err());
}

#[test]
fn token_endpoint_host_extraction_requires_http_or_https() {
    assert_eq!(
        ValidatedTokenEndpoint::parse("https://auth.example.com/oauth/token")
            .ok()
            .unwrap()
            .host,
        "auth.example.com"
    );
    assert_eq!(
        ValidatedTokenEndpoint::parse("http://auth.example:8080/token")
            .ok()
            .unwrap()
            .host,
        "auth.example"
    );

    let err = ValidatedTokenEndpoint::parse("spiffe://trust.example/path").err().unwrap().to_string();
    assert!(err.contains("http") && err.contains("https"), "{err}");
}
