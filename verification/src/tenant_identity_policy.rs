//! Tenant identity policy: validated issuers, SPIFFE subject prefixes and
//! token endpoints.
use vstd::prelude::*;
use vstd::string::*;
use crate::identity_url::{
    canonical_text, identity_url_outcome, scheme_outcome, spiffe_outcome, IdentityParseError,
    IdentityUrlModel, ValidatedIdentityUrl,
};
use crate::text::{
    append_chars, ascii_lower, ascii_lower_vec, chars_equal, chars_of, debug_str, debug_str_vec,
    lemma_ascii_lower_idempotent, starts_with, string_of,
};
use crate::url_parts::all_ascii;

verus! {

/// The schemes an issuer may use.
pub open spec fn issuer_schemes() -> Seq<Seq<char>> {
    seq!["http"@, "https"@, "spiffe"@]
}

/// The schemes a token endpoint may use.
pub open spec fn token_endpoint_schemes() -> Seq<Seq<char>> {
    seq!["http"@, "https"@]
}

/// A validated issuer: its canonical identity URL and its trust domain.
pub struct ValidatedIssuer {
    pub identity: String,
    pub trust_domain: String,
}

/// Why an issuer URL was refused.
pub enum IssuerError {
    Parse(IdentityParseError),
}

impl IssuerError {
    /// The message of the underlying URL error.
    pub open spec fn inner_message(&self) -> Seq<char> {
        match self {
            IssuerError::Parse(e) => e.message(),
        }
    }

    /// The error's message, as its `Display` shows it.
    pub fn to_string(&self) -> (s: String)
        ensures
            s@ == "Invalid issuer URL: "@ + self.inner_message(),
    {
        match self {
            IssuerError::Parse(e) => {
                let mut v = chars_of("Invalid issuer URL: ");
                let m = e.to_string();
                let mv = chars_of(m.as_str());
                append_chars(&mut v, mv.as_slice());
                string_of(v.as_slice())
            },
        }
    }
}

/// The outcome of validating an issuer URL: `(identity, trust domain)`, or
/// the message of the URL error.
pub open spec fn issuer_outcome(raw: Seq<char>) -> Result<(Seq<char>, Seq<char>), Seq<char>> {
    match identity_url_outcome(raw) {
        Err(m) => Err(m),
        Ok(u) => match scheme_outcome(u, issuer_schemes()) {
            Err(m) => Err(m),
            Ok(v) => Ok((canonical_text(v), v.trust_domain)),
        },
    }
}

impl ValidatedIssuer {
    /// Validates an issuer URL (schemes `http`, `https`, `spiffe`) and
    /// canonicalizes it.
    pub fn parse(raw: &str) -> (res: Result<ValidatedIssuer, IssuerError>)
        ensures
            match (res, issuer_outcome(raw@)) {
                (Ok(i), Ok((identity, td))) => i.identity@ == identity && i.trust_domain@ == td,
                (Err(e), Err(m)) => e.inner_message() == m,
                _ => false,
            },
            res matches Ok(i) ==> all_ascii(i.trust_domain@),
    {
        let u = match ValidatedIdentityUrl::parse(raw) {
            Ok(u) => u,
            Err(e) => return Err(IssuerError::Parse(e)),
        };
        let allowed: [&str; 3] = ["http", "https", "spiffe"];
        proof {
            reveal_strlit("http");
            reveal_strlit("https");
            reveal_strlit("spiffe");
            assert(allowed@.map_values(|s: &str| s@) =~= issuer_schemes());
        }
        let v = match u.require_scheme(&allowed) {
            Ok(v) => v,
            Err(e) => return Err(IssuerError::Parse(e)),
        };
        let identity = v.canonicalized();
        Ok(ValidatedIssuer { identity, trust_domain: v.trust_domain })
    }

    /// The canonical identity URL, consuming the issuer.
    pub fn into_string(self) -> (s: String)
        ensures
            s@ == self.identity@,
    {
        self.identity
    }

    /// The canonical identity URL.
    pub fn as_str(&self) -> (s: &str)
        ensures
            s@ == self.identity@,
    {
        self.identity.as_str()
    }
}

/// A validated SPIFFE subject prefix, in canonical form.
pub struct ValidatedSubjectPrefix(String);

/// Why a subject prefix was refused.
pub enum SubjectPrefixError {
    Parse(IdentityParseError),
    TrustDomainMismatch { expected: String, got: String },
}

/// Plain-value model of a `SubjectPrefixError`.
pub enum SubjectPrefixErrorModel {
    Parse(Seq<char>),
    TrustDomainMismatch { expected: Seq<char>, got: Seq<char> },
}

impl View for SubjectPrefixError {
    type V = SubjectPrefixErrorModel;

    open spec fn view(&self) -> SubjectPrefixErrorModel {
        match self {
            SubjectPrefixError::Parse(e) => SubjectPrefixErrorModel::Parse(e.message()),
            SubjectPrefixError::TrustDomainMismatch { expected, got } =>
                SubjectPrefixErrorModel::TrustDomainMismatch { expected: expected@, got: got@ },
        }
    }
}

/// The `Display` text of a subject-prefix error.
pub open spec fn subject_prefix_error_text(e: SubjectPrefixErrorModel) -> Seq<char> {
    match e {
        SubjectPrefixErrorModel::Parse(m) => "Invalid subject prefix URL: "@ + m,
        SubjectPrefixErrorModel::TrustDomainMismatch { expected, got } => "Subject prefix trust domain "@
            + debug_str(got) + " does not match issuer trust domain (expected "@ + debug_str(
            expected,
        ) + ")"@,
    }
}

impl SubjectPrefixError {
    /// The error's message, as its `Display` shows it (trust domains are ASCII
    /// text, as validation produces them).
    pub fn to_string(&self) -> (s: String)
        requires
            self matches SubjectPrefixError::TrustDomainMismatch { expected, got } ==> all_ascii(
                expected@,
            ) && all_ascii(got@),
        ensures
            s@ == subject_prefix_error_text(self@),
    {
        match self {
            SubjectPrefixError::Parse(e) => {
                let mut v = chars_of("Invalid subject prefix URL: ");
                let m = e.to_string();
                let mv = chars_of(m.as_str());
                append_chars(&mut v, mv.as_slice());
                string_of(v.as_slice())
            },
            SubjectPrefixError::TrustDomainMismatch { expected, got } => {
                let mut v = chars_of("Subject prefix trust domain ");
                let gv = chars_of(got.as_str());
                let gq = debug_str_vec(gv.as_slice());
                append_chars(&mut v, gq.as_slice());
                let mid = chars_of(" does not match issuer trust domain (expected ");
                append_chars(&mut v, mid.as_slice());
                let ev = chars_of(expected.as_str());
                let eq = debug_str_vec(ev.as_slice());
                append_chars(&mut v, eq.as_slice());
                let tail = chars_of(")");
                append_chars(&mut v, tail.as_slice());
                string_of(v.as_slice())
            },
        }
    }
}

/// The outcome of validating a subject prefix against an issuer's trust
/// domain: the canonical prefix, or the error.
pub open spec fn subject_prefix_outcome(raw: Seq<char>, issuer_td: Seq<char>) -> Result<
    Seq<char>,
    SubjectPrefixErrorModel,
> {
    if raw.len() == 0 {
        Ok("spiffe://"@ + issuer_td)
    } else {
        match identity_url_outcome(raw) {
            Err(m) => Err(SubjectPrefixErrorModel::Parse(m)),
            Ok(u) => match spiffe_outcome(u) {
                Err(m) => Err(SubjectPrefixErrorModel::Parse(m)),
                Ok(v) => {
                    let c = canonical_text(v);
                    if ascii_lower(raw) != ascii_lower(c) {
                        Err(
                            SubjectPrefixErrorModel::Parse(
                                "SPIFFE URL is in non-canonical form: "@ + raw,
                            ),
                        )
                    } else if v.trust_domain != issuer_td {
                        Err(
                            SubjectPrefixErrorModel::TrustDomainMismatch {
                                expected: issuer_td,
                                got: v.trust_domain,
                            },
                        )
                    } else {
                        Ok(c)
                    }
                },
            },
        }
    }
}

impl ValidatedSubjectPrefix {
    /// The canonical prefix text.
    pub closed spec fn text(&self) -> Seq<char> {
        self.0@
    }

    /// Validates a subject prefix for `issuer`; the empty prefix stands for
    /// `spiffe://<issuer trust domain>`.
    pub fn parse(raw: &str, issuer: &ValidatedIssuer) -> (res: Result<ValidatedSubjectPrefix, SubjectPrefixError>)
        ensures
            match (res, subject_prefix_outcome(raw@, issuer.trust_domain@)) {
                (Ok(p), Ok(t)) => p.text() == t,
                (Err(e), Err(m)) => e@ == m,
                _ => false,
            },
            all_ascii(issuer.trust_domain@) ==> (res matches Err(
                SubjectPrefixError::TrustDomainMismatch { expected, got },
            ) ==> all_ascii(expected@) && all_ascii(got@)),
    {
        let rv = chars_of(raw);
        if rv.len() == 0 {
            let mut v = chars_of("spiffe://");
            let td = chars_of(issuer.trust_domain.as_str());
            append_chars(&mut v, td.as_slice());
            return Ok(ValidatedSubjectPrefix(string_of(v.as_slice())));
        }
        let u = match ValidatedIdentityUrl::parse(raw) {
            Ok(u) => u,
            Err(e) => return Err(SubjectPrefixError::Parse(e)),
        };
        let spiffe_url = match u.require_valid_spiffe_url() {
            Ok(s) => s,
            Err(e) => return Err(SubjectPrefixError::Parse(e)),
        };
        let canonicalized = spiffe_url.canonicalized();
        let cv = chars_of(canonicalized.as_str());
        let raw_lower = ascii_lower_vec(&rv);
        let canon_lower = ascii_lower_vec(&cv);
        if !chars_equal(raw_lower.as_slice(), canon_lower.as_slice()) {
            let mut v = chars_of("SPIFFE URL is in non-canonical form: ");
            append_chars(&mut v, rv.as_slice());
            return Err(SubjectPrefixError::Parse(IdentityParseError::Formatted(string_of(v.as_slice()))));
        }
        let got = chars_of(spiffe_url.trust_domain.as_str());
        let expected = chars_of(issuer.trust_domain.as_str());
        if !chars_equal(got.as_slice(), expected.as_slice()) {
            return Err(
                SubjectPrefixError::TrustDomainMismatch {
                    expected: issuer.trust_domain.clone(),
                    got: spiffe_url.trust_domain,
                },
            );
        }
        Ok(ValidatedSubjectPrefix(canonicalized))
    }

    /// The canonical prefix, consuming the value.
    pub fn into_string(self) -> (s: String)
        ensures
            s@ == self.text(),
    {
        self.0
    }

    /// The canonical prefix.
    pub fn as_str(&self) -> (s: &str)
        ensures
            s@ == self.text(),
    {
        self.0.as_str()
    }
}

/// A validated token endpoint, reduced to its host.
pub struct ValidatedTokenEndpoint {
    pub host: String,
}

/// Why a token endpoint URL was refused.
pub enum TokenEndpointError {
    Parse(IdentityParseError),
}

impl TokenEndpointError {
    /// The message of the underlying URL error.
    pub open spec fn inner_message(&self) -> Seq<char> {
        match self {
            TokenEndpointError::Parse(e) => e.message(),
        }
    }

    /// The error's message, as its `Display` shows it.
    pub fn to_string(&self) -> (s: String)
        ensures
            s@ == "Invalid token endpoint URL: "@ + self.inner_message(),
    {
        match self {
            TokenEndpointError::Parse(e) => {
                let mut v = chars_of("Invalid token endpoint URL: ");
                let m = e.to_string();
                let mv = chars_of(m.as_str());
                append_chars(&mut v, mv.as_slice());
                string_of(v.as_slice())
            },
        }
    }
}

/// The outcome of validating a token endpoint URL: its host, or the message
/// of the URL error.
pub open spec fn token_endpoint_outcome(raw: Seq<char>) -> Result<Seq<char>, Seq<char>> {
    match identity_url_outcome(raw) {
        Err(m) => Err(m),
        Ok(u) => match scheme_outcome(u, token_endpoint_schemes()) {
            Err(m) => Err(m),
            Ok(v) => Ok(v.trust_domain),
        },
    }
}

impl ValidatedTokenEndpoint {
    /// Validates a token endpoint URL (schemes `http`, `https`) and keeps its host.
    pub fn parse(raw: &str) -> (res: Result<ValidatedTokenEndpoint, TokenEndpointError>)
        ensures
            match (res, token_endpoint_outcome(raw@)) {
                (Ok(t), Ok(h)) => t.host@ == h,
                (Err(e), Err(m)) => e.inner_message() == m,
                _ => false,
            },
    {
        let u = match ValidatedIdentityUrl::parse(raw) {
            Ok(u) => u,
            Err(e) => return Err(TokenEndpointError::Parse(e)),
        };
        let allowed: [&str; 2] = ["http", "https"];
        proof {
            reveal_strlit("http");
            reveal_strlit("https");
            assert(allowed@.map_values(|s: &str| s@) =~= token_endpoint_schemes());
        }
        let v = match u.require_scheme(&allowed) {
            Ok(v) => v,
            Err(e) => return Err(TokenEndpointError::Parse(e)),
        };
        Ok(ValidatedTokenEndpoint { host: v.trust_domain })
    }
}


// ---------------------------------------------------------------------
// Laws
// ---------------------------------------------------------------------

/// The trust domain of a validated issuer is in lower case.
pub proof fn law_issuer_trust_domain_is_lower_case(raw: Seq<char>, identity: Seq<char>, td: Seq<char>)
    requires
        issuer_outcome(raw) == Ok::<(Seq<char>, Seq<char>), Seq<char>>((identity, td)),
    ensures
        ascii_lower(td) == td,
{
    let u = identity_url_outcome(raw)->Ok_0;
    lemma_ascii_lower_idempotent(u.trust_domain);
}

/// A validated issuer's identity is `scheme://trust-domain...` for one of the
/// issuer schemes.
pub proof fn law_issuer_identity_names_its_trust_domain(raw: Seq<char>, identity: Seq<char>, td: Seq<char>)
    requires
        issuer_outcome(raw) == Ok::<(Seq<char>, Seq<char>), Seq<char>>((identity, td)),
    ensures
        exists|i: int|
            0 <= i < issuer_schemes().len() && starts_with(
                identity,
                #[trigger] issuer_schemes()[i] + "://"@ + td,
            ),
{
    let u = identity_url_outcome(raw)->Ok_0;
    let i = choose|i: int| 0 <= i < issuer_schemes().len() && issuer_schemes()[i] == u.scheme;
    let head = u.scheme + "://"@ + td;
    assert(identity.take(head.len() as int) =~= head);
    assert(starts_with(identity, issuer_schemes()[i] + "://"@ + td));
}

/// A validated subject prefix lies within the issuer's trust domain: it
/// starts with `spiffe://<issuer trust domain>`.
pub proof fn law_subject_prefix_within_trust_domain(raw: Seq<char>, issuer_td: Seq<char>, prefix: Seq<char>)
    requires
        subject_prefix_outcome(raw, issuer_td) == Ok::<Seq<char>, SubjectPrefixErrorModel>(prefix),
    ensures
        starts_with(prefix, "spiffe://"@ + issuer_td),
{
    reveal_strlit("spiffe://");
    reveal_strlit("spiffe");
    reveal_strlit("://");
    let head = "spiffe://"@ + issuer_td;
    if raw.len() == 0 {
        assert(prefix.take(head.len() as int) =~= head);
    } else {
        let u = identity_url_outcome(raw)->Ok_0;
        assert(u.scheme == "spiffe"@);
        assert("spiffe"@ + "://"@ =~= "spiffe://"@);
        assert(prefix.take(head.len() as int) =~= head);
    }
}

/// A non-empty subject prefix is accepted only when it already is its
/// canonical form, up to ASCII case.
pub proof fn law_subject_prefix_is_canonical(raw: Seq<char>, issuer_td: Seq<char>, prefix: Seq<char>)
    requires
        raw.len() > 0,
        subject_prefix_outcome(raw, issuer_td) == Ok::<Seq<char>, SubjectPrefixErrorModel>(prefix),
    ensures
        ascii_lower(raw) == ascii_lower(prefix),
{
}

/// The host of a validated token endpoint is in lower case.
pub proof fn law_token_endpoint_host_is_lower_case(raw: Seq<char>, host: Seq<char>)
    requires
        token_endpoint_outcome(raw) == Ok::<Seq<char>, Seq<char>>(host),
    ensures
        ascii_lower(host) == host,
{
    let u = identity_url_outcome(raw)->Ok_0;
    lemma_ascii_lower_idempotent(u.trust_domain);
}


impl PartialEq for ValidatedIssuer {
    fn eq(&self, other: &Self) -> (r: bool) {
        self.identity == other.identity && self.trust_domain == other.trust_domain
    }
}

impl vstd::std_specs::cmp::PartialEqSpecImpl for ValidatedIssuer {
    open spec fn obeys_eq_spec() -> bool {
        true
    }

    open spec fn eq_spec(&self, other: &Self) -> bool {
        self.identity@ == other.identity@ && self.trust_domain@ == other.trust_domain@
    }
}

impl Eq for ValidatedIssuer {}

impl PartialEq for ValidatedSubjectPrefix {
    fn eq(&self, other: &Self) -> (r: bool) {
        self.0 == other.0
    }
}

impl vstd::std_specs::cmp::PartialEqSpecImpl for ValidatedSubjectPrefix {
    open spec fn obeys_eq_spec() -> bool {
        true
    }

    closed spec fn eq_spec(&self, other: &Self) -> bool {
        self.0@ == other.0@
    }
}

impl Eq for ValidatedSubjectPrefix {}

impl PartialEq for ValidatedTokenEndpoint {
    fn eq(&self, other: &Self) -> (r: bool) {
        self.host == other.host
    }
}

impl vstd::std_specs::cmp::PartialEqSpecImpl for ValidatedTokenEndpoint {
    open spec fn obeys_eq_spec() -> bool {
        true
    }

    open spec fn eq_spec(&self, other: &Self) -> bool {
        self.host@ == other.host@
    }
}

impl Eq for ValidatedTokenEndpoint {}

} // verus!
