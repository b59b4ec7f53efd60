//! The parts of a parsed URL that identity validation reads, as plain values,
//! and the trusted call into the `url` crate that produces them.
use vstd::prelude::*;
use url::{Host, Url};

verus! {

/// The host of a parsed URL.
pub enum UrlHost {
    /// A DNS domain (or an opaque host of a non-special URL).
    Domain(String),
    /// An IPv4 or IPv6 address.
    IpAddress,
}

/// Plain-value model of a `UrlHost`.
pub enum UrlHostModel {
    Domain(Seq<char>),
    IpAddress,
}

/// The components of a parsed URL.
pub struct UrlParts {
    /// The scheme, lower-cased, without `:`.
    pub scheme: String,
    /// The user name (empty when absent).
    pub username: String,
    pub password: Option<String>,
    pub host: Option<UrlHost>,
    /// The port, `None` when absent or equal to the scheme's default.
    pub port: Option<u16>,
    pub path: String,
    pub query: Option<String>,
    pub fragment: Option<String>,
    /// The URL's serialization (its `Display` text).
    pub serialization: String,
    /// The URL's `Debug` text.
    pub debug: String,
}

/// Plain-value model of `UrlParts`.
pub struct UrlPartsModel {
    pub scheme: Seq<char>,
    pub username: Seq<char>,
    pub password: Option<Seq<char>>,
    pub host: Option<UrlHostModel>,
    pub port: Option<u16>,
    pub path: Seq<char>,
    pub query: Option<Seq<char>>,
    pub fragment: Option<Seq<char>>,
    pub serialization: Seq<char>,
    pub debug: Seq<char>,
}

pub open spec fn opt_string_model(o: Option<String>) -> Option<Seq<char>> {
    match o {
        Some(s) => Some(s@),
        None => None,
    }
}

impl View for UrlHost {
    type V = UrlHostModel;

    open spec fn view(&self) -> UrlHostModel {
        match self {
            UrlHost::Domain(d) => UrlHostModel::Domain(d@),
            UrlHost::IpAddress => UrlHostModel::IpAddress,
        }
    }
}

impl View for UrlParts {
    type V = UrlPartsModel;

    open spec fn view(&self) -> UrlPartsModel {
        UrlPartsModel {
            scheme: self.scheme@,
            username: self.username@,
            password: opt_string_model(self.password),
            host: match self.host {
                Some(h) => Some(h@),
                None => None,
            },
            port: self.port,
            path: self.path@,
            query: opt_string_model(self.query),
            fragment: opt_string_model(self.fragment),
            serialization: self.serialization@,
            debug: self.debug@,
        }
    }
}

/// Model of the outcome of parsing a URL: its parts, or the parser's error text.
pub open spec fn url_result_model(r: Result<UrlParts, String>) -> Result<UrlPartsModel, Seq<char>> {
    match r {
        Ok(p) => Ok(p@),
        Err(e) => Err(e@),
    }
}

/// What `url::Url::parse` yields for an input text: the parts of the parsed
/// URL, or the `Display` text of its `ParseError`.
pub uninterp spec fn url_parse_outcome(raw: Seq<char>) -> Result<UrlPartsModel, Seq<char>>;

/// Text made of ASCII characters only.
pub open spec fn all_ascii(s: Seq<char>) -> bool {
    forall|i: int| 0 <= i < s.len() ==> '\0' <= #[trigger] s[i] <= '\u{7f}'
}

/// Calls `url::Url::parse` and reads back the parsed URL's parts
/// (`scheme`, `username`, `password`, `host`, `port`, `path`, `query`,
/// `fragment`, and its `Display` and `Debug` texts).
///
/// Trusted: the result is the named outcome `url_parse_outcome` of the input
/// text. Of its parts the `url` documentation promises, and this contract
/// states, that the scheme and the path are ASCII and that a domain host is
/// ASCII (punycode or percent-encoded).
#[verifier::external_body]
pub(crate) fn parse_url(raw: &str) -> (res: Result<UrlParts, String>)
    ensures
        url_result_model(res) == url_parse_outcome(raw@),
        res matches Ok(p) ==> all_ascii(p.scheme@) && all_ascii(p.path@),
        res matches Ok(p) ==> (p.host matches Some(UrlHost::Domain(d)) ==> all_ascii(d@)),
{
    let u = Url::parse(raw).map_err(|e| e.to_string())?;
    let host = match u.host() {
        Some(Host::Domain(d)) => Some(UrlHost::Domain(d.into())),
        Some(Host::Ipv4(_) | Host::Ipv6(_)) => Some(UrlHost::IpAddress),
        None => None,
    };
    Ok(UrlParts {
        scheme: u.scheme().into(), username: u.username().into(), password: u.password().map(Into::into),
        host, port: u.port(), path: u.path().into(), query: u.query().map(Into::into),
        fragment: u.fragment().map(Into::into), serialization: u.to_string(), debug: format!("{u:?}"),
    })
}

} // verus!
