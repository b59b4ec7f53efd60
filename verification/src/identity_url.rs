//! Validation of identity URLs (issuers, SPIFFE subject prefixes and token
//! endpoints): the checks on the raw text, on the parsed URL, on the scheme
//! and on SPIFFE paths, and the canonical form of a validated URL.
use vstd::prelude::*;
use vstd::string::*;
use vstd::utf8::*;
use crate::text::{
    append_chars, ascii_lower, ascii_lower_vec, chars_equal, chars_of, debug_str, debug_str_vec,
    decimal, decimal_chars, ends_with, lower_char, starts_with, string_from, string_of, trim_start_char,
    trim_start_char_vec,
};
use crate::url_parts::{all_ascii, parse_url, url_parse_outcome, UrlHost, UrlHostModel, UrlPartsModel};

verus! {

/// Longest accepted URL, in bytes.
pub const MAX_URL_BYTES: usize = 2048;

/// Longest accepted host name, in bytes.
pub const MAX_TRUST_DOMAIN_BYTES: usize = 253;

/// Length of a text in UTF-8 bytes.
pub open spec fn utf8_len(s: Seq<char>) -> nat {
    encode_utf8(s).len()
}

/// Why an identity URL was refused: a message built at run time, or a fixed one.
pub enum IdentityParseError {
    Formatted(String),
    Static(&'static str),
}

impl IdentityParseError {
    /// The error's message.
    pub open spec fn message(&self) -> Seq<char> {
        match self {
            IdentityParseError::Formatted(s) => s@,
            IdentityParseError::Static(s) => s@,
        }
    }

    /// The error's message, as its `Display` shows it.
    pub fn to_string(&self) -> (s: String)
        ensures
            s@ == self.message(),
    {
        match self {
            IdentityParseError::Formatted(s) => s.clone(),
            IdentityParseError::Static(s) => string_from(s),
        }
    }
}

/// A URL that passed the identity checks, reduced to what later steps read.
pub struct ValidatedIdentityUrl {
    /// The host, ASCII lower-cased.
    pub trust_domain: String,
    pub scheme: String,
    pub port: Option<u16>,
    pub path: String,
}

/// Plain-value model of a validated identity URL.
pub struct IdentityUrlModel {
    pub trust_domain: Seq<char>,
    pub scheme: Seq<char>,
    pub port: Option<u16>,
    pub path: Seq<char>,
}

impl View for ValidatedIdentityUrl {
    type V = IdentityUrlModel;

    open spec fn view(&self) -> IdentityUrlModel {
        IdentityUrlModel {
            trust_domain: self.trust_domain@,
            scheme: self.scheme@,
            port: self.port,
            path: self.path@,
        }
    }
}

/// Model of a validation outcome: the URL, or the error message.
pub open spec fn identity_result_model(r: Result<ValidatedIdentityUrl, IdentityParseError>) -> Result<
    IdentityUrlModel,
    Seq<char>,
> {
    match r {
        Ok(u) => Ok(u@),
        Err(e) => Err(e.message()),
    }
}

/// `c` is an ASCII control character.
pub open spec fn is_control(c: char) -> bool {
    (c as u32) < 0x20 || c == '\u{7f}'
}

/// `c` is one of the characters that identity URLs may not hold.
pub open spec fn is_disallowed(c: char) -> bool {
    c == '\\' || c == '%' || c == '#' || c == ' '
}

/// The checks made on the raw text before it is parsed, in order.
pub open spec fn raw_text_error(raw: Seq<char>) -> Option<Seq<char>> {
    if raw.len() == 0 {
        Some("url is empty"@)
    } else if utf8_len(raw) > MAX_URL_BYTES {
        Some("url exceeds maximum length (2048 bytes)"@)
    } else if !is_ascii_chars(raw) {
        Some("must contain only ASCII characters"@)
    } else if exists|i: int| 0 <= i < raw.len() && is_control(#[trigger] raw[i]) {
        Some("must not contain control characters (disallowed)"@)
    } else if exists|i: int| 0 <= i < raw.len() && is_disallowed(#[trigger] raw[i]) {
        Some("contains disallowed characters: must not contain spaces, '\\\\', '%', or '#'"@)
    } else {
        None
    }
}

/// The checks made on a parsed URL, and the validated URL when they pass.
pub open spec fn parsed_url_outcome(u: UrlPartsModel) -> Result<IdentityUrlModel, Seq<char>> {
    if u.query is Some {
        Err("query is not allowed"@)
    } else if u.fragment is Some {
        Err("fragment is not allowed"@)
    } else if u.username.len() != 0 || u.password is Some {
        Err("URL must not contain userinfo"@)
    } else {
        match u.host {
            Some(UrlHostModel::Domain(h)) => {
                if h.len() == 0 {
                    Err("url must have a host: "@ + u.serialization)
                } else if utf8_len(h) > MAX_TRUST_DOMAIN_BYTES {
                    Err("hostname part exceeds maximum length (253 bytes)"@)
                } else {
                    Ok(
                        IdentityUrlModel {
                            trust_domain: ascii_lower(h),
                            scheme: u.scheme,
                            port: u.port,
                            path: u.path,
                        },
                    )
                }
            },
            Some(UrlHostModel::IpAddress) => Err(
                "trust domain must be a DNS hostname, not an IP address (got "@ + u.debug + ")"@,
            ),
            None => Err("url must have a host: "@ + u.serialization),
        }
    }
}

/// The outcome of validating a raw identity URL.
pub open spec fn identity_url_outcome(raw: Seq<char>) -> Result<IdentityUrlModel, Seq<char>> {
    match raw_text_error(raw) {
        Some(m) => Err(m),
        None => match url_parse_outcome(raw) {
            Err(e) => Err("invalid URL ("@ + e + ")"@),
            Ok(u) => parsed_url_outcome(u),
        },
    }
}

/// The `{:?}` text of a list of strings: `["a", "b"]`.
pub open spec fn debug_list(items: Seq<Seq<char>>) -> Seq<char> {
    seq!['['] + debug_items(items) + seq![']']
}

/// The items of a `{:?}` list, separated by `, `.
pub open spec fn debug_items(items: Seq<Seq<char>>) -> Seq<char>
    decreases items.len(),
{
    if items.len() == 0 {
        seq![]
    } else if items.len() == 1 {
        debug_str(items[0])
    } else {
        debug_items(items.drop_last()) + seq![',', ' '] + debug_str(items.last())
    }
}

/// The outcome of requiring one of the `allowed` schemes.
pub open spec fn scheme_outcome(u: IdentityUrlModel, allowed: Seq<Seq<char>>) -> Result<
    IdentityUrlModel,
    Seq<char>,
> {
    if allowed.contains(u.scheme) {
        Ok(u)
    } else {
        Err("Unexpected scheme "@ + u.scheme + ": supported: "@ + debug_list(allowed))
    }
}

/// `c` may appear in a SPIFFE path segment: `[a-zA-Z0-9._-]`.
pub open spec fn is_segment_char(c: char) -> bool {
    ||| ('a' <= c && c <= 'z')
    ||| ('A' <= c && c <= 'Z')
    ||| ('0' <= c && c <= '9')
    ||| c == '.'
    ||| c == '_'
    ||| c == '-'
}

/// The pieces of `s` between occurrences of `sep` (as `str::split` gives them).
pub open spec fn split_on(s: Seq<char>, sep: char) -> Seq<Seq<char>>
    decreases s.len(),
{
    if s.len() == 0 {
        seq![seq![]]
    } else {
        let r = split_on(s.drop_last(), sep);
        if s.last() == sep {
            r.push(seq![])
        } else {
            r.update(r.len() - 1, r.last().push(s.last()))
        }
    }
}

/// Why a SPIFFE path segment is refused, if it is.
pub open spec fn segment_error(seg: Seq<char>) -> Option<Seq<char>> {
    if seg.len() == 0 {
        Some("path must not contain empty segments"@)
    } else if seg == "."@ || seg == ".."@ {
        Some("path must not use '.' or '..' segments"@)
    } else if !(forall|i: int| 0 <= i < seg.len() ==> is_segment_char(#[trigger] seg[i])) {
        Some("path segment "@ + debug_str(seg) + " must match [a-zA-Z0-9._-]+"@)
    } else {
        None
    }
}

/// The error of the first refused segment, if any.
pub open spec fn segments_error(segs: Seq<Seq<char>>) -> Option<Seq<char>>
    decreases segs.len(),
{
    if segs.len() == 0 {
        None
    } else {
        match segment_error(segs[0]) {
            Some(m) => Some(m),
            None => segments_error(segs.drop_first()),
        }
    }
}

/// The outcome of requiring a canonical SPIFFE URL.
pub open spec fn spiffe_outcome(u: IdentityUrlModel) -> Result<IdentityUrlModel, Seq<char>> {
    let path = u.path;
    if u.scheme != "spiffe"@ {
        Err("must use the spiffe:// scheme"@)
    } else if u.port is Some {
        Err("must not include a port"@)
    } else if path.len() == 0 || path == "/"@ {
        Ok(u)
    } else if path[0] != '/' {
        Err("path must start with '/'"@)
    } else if path.last() == '/' {
        Err("path must not end with '/' (use spiffe://<td> for root only)"@)
    } else {
        match segments_error(split_on(trim_start_char(path, '/'), '/')) {
            Some(m) => Err(m),
            None => Ok(u),
        }
    }
}

/// The canonical text of a validated URL: `scheme://host[:port][path]`, where
/// a bare `/` path is dropped.
pub open spec fn canonical_text(u: IdentityUrlModel) -> Seq<char> {
    u.scheme + "://"@ + u.trust_domain + match u.port {
        Some(p) => seq![':'] + decimal(p as nat),
        None => seq![],
    } + if u.path == "/"@ {
        seq![]
    } else {
        u.path
    }
}

proof fn lemma_split_nonempty(s: Seq<char>, sep: char)
    ensures
        split_on(s, sep).len() >= 1,
    decreases s.len(),
{
    if s.len() > 0 {
        lemma_split_nonempty(s.drop_last(), sep);
    }
}

/// The pieces of `s` between occurrences of `sep`.
pub fn split_chars(s: &Vec<char>, sep: char) -> (r: Vec<Vec<char>>)
    ensures
        r@.map_values(|v: Vec<char>| v@) == split_on(s@, sep),
{
    let mut done: Vec<Vec<char>> = Vec::new();
    let mut cur: Vec<char> = Vec::new();
    let mut i: usize = 0;
    while i < s.len()
        invariant
            i <= s.len(),
            done@.map_values(|v: Vec<char>| v@).push(cur@) == split_on(s@.take(i as int), sep),
        decreases s.len() - i,
    {
        let ghost pre = s@.take(i as int);
        let ghost old_done = done@.map_values(|v: Vec<char>| v@);
        let ghost old_cur = cur@;
        proof {
            lemma_split_nonempty(pre, sep);
        }
        let c = s[i];
        if c == sep {
            let finished = cur;
            done.push(finished);
            cur = Vec::new();
            assert(done@.map_values(|v: Vec<char>| v@) =~= old_done.push(old_cur));
        } else {
            cur.push(c);
        }
        i = i + 1;
        assert(s@.take(i as int).drop_last() =~= pre);
        assert(done@.map_values(|v: Vec<char>| v@).push(cur@) =~= split_on(s@.take(i as int), sep));
    }
    assert(s@.take(s.len() as int) =~= s@);
    done.push(cur);
    assert(done@.map_values(|v: Vec<char>| v@) =~= split_on(s@, sep));
    done
}

/// Builds a message from a fixed head, a variable part and a fixed tail.
fn message3(head: &str, mid: &[char], tail: &str) -> (s: String)
    ensures
        s@ == head@ + mid@ + tail@,
{
    let mut v = chars_of(head);
    append_chars(&mut v, mid);
    let t = chars_of(tail);
    append_chars(&mut v, t.as_slice());
    string_of(v.as_slice())
}

/// Builds a message from a fixed head and a variable part.
fn message2(head: &str, mid: &[char]) -> (s: String)
    ensures
        s@ == head@ + mid@,
{
    let mut v = chars_of(head);
    append_chars(&mut v, mid);
    string_of(v.as_slice())
}

/// Whether a segment holds only `[a-zA-Z0-9._-]`.
fn all_segment_chars(seg: &Vec<char>) -> (b: bool)
    ensures
        b == (forall|i: int| 0 <= i < seg@.len() ==> is_segment_char(#[trigger] seg@[i])),
{
    let mut i: usize = 0;
    while i < seg.len()
        invariant
            i <= seg.len(),
            forall|j: int| 0 <= j < i ==> is_segment_char(#[trigger] seg@[j]),
        decreases seg.len() - i,
    {
        let c = seg[i];
        let ok = ('a' <= c && c <= 'z') || ('A' <= c && c <= 'Z') || ('0' <= c && c <= '9') || c
            == '.' || c == '_' || c == '-';
        if !ok {
            assert(!is_segment_char(seg@[i as int]));
            return false;
        }
        i = i + 1;
    }
    true
}

proof fn lemma_segments_error_skip(segs: Seq<Seq<char>>, i: int)
    requires
        0 <= i <= segs.len(),
        forall|j: int| 0 <= j < i ==> segment_error(#[trigger] segs[j]) is None,
    ensures
        segments_error(segs) == segments_error(segs.skip(i)),
    decreases i,
{
    if i > 0 {
        assert(segment_error(segs[0]) is None);
        assert(segs.drop_first().skip(i - 1) =~= segs.skip(i));
        assert forall|j: int| 0 <= j < i - 1 implies segment_error(
            #[trigger] segs.drop_first()[j],
        ) is None by {
            assert(segs.drop_first()[j] == segs[j + 1]);
        }
        lemma_segments_error_skip(segs.drop_first(), i - 1);
    } else {
        assert(segs.skip(0) =~= segs);
    }
}

proof fn lemma_ascii_subrange(s: Seq<char>, t: Seq<char>)
    requires
        all_ascii(s),
        forall|i: int| 0 <= i < t.len() ==> s.contains(#[trigger] t[i]),
    ensures
        is_ascii_chars(t),
{
    assert forall|i: int| 0 <= i < t.len() implies '\0' <= #[trigger] t[i] <= '\u{7f}' by {
        assert(s.contains(t[i]));
        let k = choose|k: int| 0 <= k < s.len() && s[k] == t[i];
        assert(s[k] == t[i]);
    }
}

proof fn lemma_split_pieces_in(s: Seq<char>, sep: char)
    ensures
        forall|k: int, i: int|
            0 <= k < split_on(s, sep).len() && 0 <= i < split_on(s, sep)[k].len() ==> s.contains(
                #[trigger] split_on(s, sep)[k][i],
            ),
    decreases s.len(),
{
    lemma_split_nonempty(s, sep);
    if s.len() > 0 {
        let p = s.drop_last();
        lemma_split_pieces_in(p, sep);
        lemma_split_nonempty(p, sep);
        let r = split_on(p, sep);
        assert forall|k: int, i: int|
            0 <= k < split_on(s, sep).len() && 0 <= i < split_on(s, sep)[k].len() implies s.contains(
            #[trigger] split_on(s, sep)[k][i],
        ) by {
            let c = split_on(s, sep)[k][i];
            if s.last() == sep {
                if k < r.len() {
                    assert(p.contains(c));
                    let j = choose|j: int| 0 <= j < p.len() && p[j] == c;
                    assert(s[j] == c);
                }
            } else {
                if k < r.len() - 1 || i < r[k].len() {
                    assert(split_on(s, sep)[k][i] == r[k][i]);
                    assert(p.contains(c));
                    let j = choose|j: int| 0 <= j < p.len() && p[j] == c;
                    assert(s[j] == c);
                } else {
                    assert(c == s.last());
                    assert(s[s.len() - 1] == c);
                }
            }
        }
    }
}

proof fn lemma_trim_start_char_in(s: Seq<char>, c: char)
    ensures
        forall|i: int| 0 <= i < trim_start_char(s, c).len() ==> s.contains(#[trigger] trim_start_char(s, c)[i]),
    decreases s.len(),
{
    if s.len() > 0 && s[0] == c {
        lemma_trim_start_char_in(s.drop_first(), c);
        assert forall|i: int| 0 <= i < trim_start_char(s, c).len() implies s.contains(
            #[trigger] trim_start_char(s, c)[i],
        ) by {
            let x = trim_start_char(s, c)[i];
            assert(trim_start_char(s, c) == trim_start_char(s.drop_first(), c));
            assert(x == trim_start_char(s.drop_first(), c)[i]);
            assert(s.drop_first().contains(x));
            let j = choose|j: int| 0 <= j < s.drop_first().len() && s.drop_first()[j] == x;
            assert(s[j + 1] == s.drop_first()[j]);
        }
    } else {
        assert forall|i: int| 0 <= i < trim_start_char(s, c).len() implies s.contains(
            #[trigger] trim_start_char(s, c)[i],
        ) by {
            assert(s[i] == trim_start_char(s, c)[i]);
        }
    }
}

impl ValidatedIdentityUrl {
    /// Checks the raw text, parses it and checks the parsed URL.
    #[verifier::loop_isolation(false)]
    pub fn parse(raw: &str) -> (res: Result<ValidatedIdentityUrl, IdentityParseError>)
        ensures
            identity_result_model(res) == identity_url_outcome(raw@),
            res matches Ok(u) ==> all_ascii(u.scheme@) && all_ascii(u.path@) && all_ascii(
                u.trust_domain@,
            ),
    {
        let chars = chars_of(raw);
        if chars.len() == 0 {
            return Err(IdentityParseError::Static("url is empty"));
        }
        if raw.as_bytes().len() > MAX_URL_BYTES {
            return Err(IdentityParseError::Static("url exceeds maximum length (2048 bytes)"));
        }
        if !raw.is_ascii() {
            return Err(IdentityParseError::Static("must contain only ASCII characters"));
        }
        let mut i: usize = 0;
        while i < chars.len()
            invariant
                chars@ == raw@,
                i <= chars.len(),
                forall|j: int| 0 <= j < i ==> !is_control(#[trigger] raw@[j]),
            decreases chars.len() - i,
        {
            let c = chars[i];
            if (c as u32) < 0x20 || c == '\u{7f}' {
                assert(is_control(raw@[i as int]));
                return Err(
                    IdentityParseError::Static("must not contain control characters (disallowed)"),
                );
            }
            i = i + 1;
        }
        let mut i: usize = 0;
        while i < chars.len()
            invariant
                chars@ == raw@,
                i <= chars.len(),
                forall|j: int| 0 <= j < i ==> !is_disallowed(#[trigger] raw@[j]),
            decreases chars.len() - i,
        {
            let c = chars[i];
            if c == '\\' || c == '%' || c == '#' || c == ' ' {
                assert(is_disallowed(raw@[i as int]));
                return Err(
                    IdentityParseError::Static(
                        "contains disallowed characters: must not contain spaces, '\\\\', '%', or '#'",
                    ),
                );
            }
            i = i + 1;
        }
        assert(raw_text_error(raw@) is None);
        let parts = match parse_url(raw) {
            Ok(p) => p,
            Err(e) => {
                let ev = chars_of(e.as_str());
                return Err(IdentityParseError::Formatted(message3("invalid URL (", ev.as_slice(), ")")));
            },
        };
        if parts.query.is_some() {
            return Err(IdentityParseError::Static("query is not allowed"));
        }
        if parts.fragment.is_some() {
            return Err(IdentityParseError::Static("fragment is not allowed"));
        }
        if parts.username.as_str().unicode_len() != 0 || parts.password.is_some() {
            return Err(IdentityParseError::Static("URL must not contain userinfo"));
        }
        let host = match &parts.host {
            Some(UrlHost::Domain(h)) => {
                if h.as_str().unicode_len() == 0 {
                    let sv = chars_of(parts.serialization.as_str());
                    return Err(
                        IdentityParseError::Formatted(message2("url must have a host: ", sv.as_slice())),
                    );
                }
                h
            },
            Some(UrlHost::IpAddress) => {
                let dv = chars_of(parts.debug.as_str());
                return Err(
                    IdentityParseError::Formatted(
                        message3(
                            "trust domain must be a DNS hostname, not an IP address (got ",
                            dv.as_slice(),
                            ")",
                        ),
                    ),
                );
            },
            None => {
                let sv = chars_of(parts.serialization.as_str());
                return Err(
                    IdentityParseError::Formatted(message2("url must have a host: ", sv.as_slice())),
                );
            },
        };
        if host.as_str().as_bytes().len() > MAX_TRUST_DOMAIN_BYTES {
            return Err(IdentityParseError::Static("hostname part exceeds maximum length (253 bytes)"));
        }
        let hv = chars_of(host.as_str());
        let lowered = ascii_lower_vec(&hv);
        proof {
            assert forall|i: int| 0 <= i < lowered@.len() implies '\0' <= #[trigger] lowered@[i] <= '\u{7f}' by {
                assert(lowered@[i] == lower_char(hv@[i]));
            }
        }
        let trust_domain = string_of(lowered.as_slice());
        // The host is kept on its own, lower-cased; scheme, port and path are
        // the parsed URL's own.
        Ok(
            ValidatedIdentityUrl {
                trust_domain,
                scheme: parts.scheme,
                port: parts.port,
                path: parts.path,
            },
        )
    }

    /// Keeps the URL when its scheme is one of `allowed`.
    pub fn require_scheme(self, allowed: &[&str]) -> (res: Result<ValidatedIdentityUrl, IdentityParseError>)
        requires
            all_ascii(self.scheme@),
            forall|i: int| 0 <= i < allowed@.len() ==> all_ascii(#[trigger] allowed@[i]@),
        ensures
            identity_result_model(res) == scheme_outcome(self@, allowed@.map_values(|s: &str| s@)),
    {
        let ghost names = allowed@.map_values(|s: &str| s@);
        let sv = chars_of(self.scheme.as_str());
        let mut i: usize = 0;
        while i < allowed.len()
            invariant
                sv@ == self.scheme@,
                names == allowed@.map_values(|s: &str| s@),
                i <= allowed.len(),
                forall|j: int| 0 <= j < i ==> names[j] != self.scheme@,
            decreases allowed.len() - i,
        {
            let a = chars_of(allowed[i]);
            if chars_equal(a.as_slice(), sv.as_slice()) {
                assert(names[i as int] == self.scheme@);
                assert(names.contains(self.scheme@));
                return Ok(self);
            }
            i = i + 1;
        }
        assert(!names.contains(self.scheme@));
        let list = debug_list_exec(allowed);
        let mut v = chars_of("Unexpected scheme ");
        append_chars(&mut v, sv.as_slice());
        let mid = chars_of(": supported: ");
        append_chars(&mut v, mid.as_slice());
        append_chars(&mut v, list.as_slice());
        Err(IdentityParseError::Formatted(string_of(v.as_slice())))
    }

    /// Keeps the URL when it is a canonical SPIFFE URL: `spiffe` scheme, no
    /// port, and a path that is empty, `/`, or `/`-separated segments of
    /// `[a-zA-Z0-9._-]` other than `.` and `..`.
    #[verifier::loop_isolation(false)]
    pub fn require_valid_spiffe_url(self) -> (res: Result<ValidatedIdentityUrl, IdentityParseError>)
        requires
            all_ascii(self.path@),
        ensures
            identity_result_model(res) == spiffe_outcome(self@),
    {
        let sv = chars_of(self.scheme.as_str());
        let spiffe = chars_of("spiffe");
        if !chars_equal(sv.as_slice(), spiffe.as_slice()) {
            return Err(IdentityParseError::Static("must use the spiffe:// scheme"));
        }
        if self.port.is_some() {
            return Err(IdentityParseError::Static("must not include a port"));
        }
        let path = chars_of(self.path.as_str());
        let slash = chars_of("/");
        if path.len() == 0 || chars_equal(path.as_slice(), slash.as_slice()) {
            return Ok(self);
        }
        if path[0] != '/' {
            return Err(IdentityParseError::Static("path must start with '/'"));
        }
        if path[path.len() - 1] == '/' {
            return Err(
                IdentityParseError::Static(
                    "path must not end with '/' (use spiffe://<td> for root only)",
                ),
            );
        }
        let trimmed = trim_start_char_vec(&path, '/');
        let segs = split_chars(&trimmed, '/');
        let ghost ss = segs@.map_values(|v: Vec<char>| v@);
        let dot = chars_of(".");
        let dotdot = chars_of("..");
        proof {
            lemma_trim_start_char_in(path@, '/');
            lemma_split_pieces_in(trimmed@, '/');
        }
        let mut k: usize = 0;
        while k < segs.len()
            invariant
                ss == segs@.map_values(|v: Vec<char>| v@),
                ss == split_on(trim_start_char(self.path@, '/'), '/'),
                path@ == self.path@,
                all_ascii(self.path@),
                trimmed@ == trim_start_char(self.path@, '/'),
                forall|i: int| 0 <= i < trimmed@.len() ==> path@.contains(#[trigger] trimmed@[i]),
                forall|a: int, i: int|
                    0 <= a < ss.len() && 0 <= i < ss[a].len() ==> trimmed@.contains(#[trigger] ss[a][i]),
                dot@ == "."@,
                dotdot@ == ".."@,
                k <= segs.len(),
                forall|j: int| 0 <= j < k ==> segment_error(#[trigger] ss[j]) is None,
            decreases segs.len() - k,
        {
            let seg = &segs[k];
            assert(seg@ == ss[k as int]);
            assert(ss.skip(k as int)[0] == ss[k as int]);
            if seg.len() == 0 {
                proof {
                    lemma_segments_error_skip(ss, k as int);
                }
                return Err(IdentityParseError::Static("path must not contain empty segments"));
            }
            if chars_equal(seg.as_slice(), dot.as_slice()) || chars_equal(seg.as_slice(), dotdot.as_slice()) {
                proof {
                    lemma_segments_error_skip(ss, k as int);
                }
                return Err(IdentityParseError::Static("path must not use '.' or '..' segments"));
            }
            if !all_segment_chars(seg) {
                proof {
                    lemma_segments_error_skip(ss, k as int);
                    assert forall|i: int| 0 <= i < seg@.len() implies trimmed@.contains(#[trigger] seg@[i]) by {
                        assert(ss[k as int][i] == seg@[i]);
                    }
                    assert forall|i: int| 0 <= i < seg@.len() implies path@.contains(#[trigger] seg@[i]) by {
                        let c = seg@[i];
                        assert(trimmed@.contains(c));
                        let j = choose|j: int| 0 <= j < trimmed@.len() && trimmed@[j] == c;
                        assert(path@.contains(trimmed@[j]));
                    }
                    lemma_ascii_subrange(path@, seg@);
                }
                let quoted = debug_str_vec(seg.as_slice());
                return Err(
                    IdentityParseError::Formatted(
                        message3("path segment ", quoted.as_slice(), " must match [a-zA-Z0-9._-]+"),
                    ),
                );
            }
            k = k + 1;
        }
        proof {
            lemma_segments_error_skip(ss, ss.len() as int);
        }
        Ok(self)
    }

    /// The canonical text `scheme://host[:port][path]` (a bare `/` path is dropped).
    pub fn canonicalized(&self) -> (s: String)
        ensures
            s@ == canonical_text(self@),
    {
        let mut v = chars_of(self.scheme.as_str());
        let sep = chars_of("://");
        append_chars(&mut v, sep.as_slice());
        let host = chars_of(self.trust_domain.as_str());
        append_chars(&mut v, host.as_slice());
        let ghost head = v@;
        match self.port {
            Some(p) => {
                v.push(':');
                let digits = decimal_chars(p as u64);
                append_chars(&mut v, digits.as_slice());
            },
            None => {},
        }
        let ghost with_port = v@;
        let path = chars_of(self.path.as_str());
        let slash = chars_of("/");
        if !chars_equal(path.as_slice(), slash.as_slice()) {
            append_chars(&mut v, path.as_slice());
        }
        let s = string_of(v.as_slice());
        assert(s@ =~= canonical_text(self@));
        s
    }
}

/// Renders a list of ASCII strings the way `{:?}` does.
fn debug_list_exec(items: &[&str]) -> (r: Vec<char>)
    requires
        forall|i: int| 0 <= i < items@.len() ==> all_ascii(#[trigger] items@[i]@),
    ensures
        r@ == debug_list(items@.map_values(|s: &str| s@)),
{
    let ghost names = items@.map_values(|s: &str| s@);
    let mut body: Vec<char> = Vec::new();
    let mut i: usize = 0;
    while i < items.len()
        invariant
            names == items@.map_values(|s: &str| s@),
            forall|j: int| 0 <= j < items@.len() ==> all_ascii(#[trigger] items@[j]@),
            i <= items.len(),
            body@ == debug_items(names.take(i as int)),
        decreases items.len() - i,
    {
        let cs = chars_of(items[i]);
        proof {
            assert(all_ascii(items@[i as int]@));
        }
        let q = debug_str_vec(cs.as_slice());
        if i > 0 {
            body.push(',');
            body.push(' ');
        }
        append_chars(&mut body, q.as_slice());
        i = i + 1;
        proof {
            let t = names.take(i as int);
            assert(t.drop_last() =~= names.take(i - 1));
            assert(t.last() == names[i - 1]);
            if i == 1 {
                assert(debug_items(names.take(0)) =~= seq![]);
            }
        }
        assert(body@ =~= debug_items(names.take(i as int)));
    }
    assert(names.take(items.len() as int) =~= names);
    let mut r: Vec<char> = Vec::new();
    r.push('[');
    append_chars(&mut r, body.as_slice());
    r.push(']');
    assert(r@ =~= debug_list(names));
    r
}


impl From<&'static str> for IdentityParseError {
    fn from(value: &'static str) -> (r: Self) {
        IdentityParseError::Static(value)
    }
}

impl vstd::std_specs::convert::FromSpecImpl<&'static str> for IdentityParseError {
    open spec fn obeys_from_spec() -> bool {
        true
    }

    open spec fn from_spec(v: &'static str) -> IdentityParseError {
        IdentityParseError::Static(v)
    }
}

impl From<String> for IdentityParseError {
    fn from(value: String) -> (r: Self) {
        IdentityParseError::Formatted(value)
    }
}

impl vstd::std_specs::convert::FromSpecImpl<String> for IdentityParseError {
    open spec fn obeys_from_spec() -> bool {
        true
    }

    open spec fn from_spec(v: String) -> IdentityParseError {
        IdentityParseError::Formatted(v)
    }
}


/// The canonical text starts with `scheme://trust-domain` and keeps the
/// parsed path verbatim at its end (a trailing `/` included); only a bare `/`
/// path is dropped, and then the text ends with the host or port.
pub proof fn law_canonical_text_keeps_path(u: IdentityUrlModel)
    ensures
        starts_with(canonical_text(u), u.scheme + "://"@ + u.trust_domain),
        u.path != "/"@ ==> ends_with(canonical_text(u), u.path),
        u.path == "/"@ && u.port is None ==> canonical_text(u) == u.scheme + "://"@ + u.trust_domain,
{
    let head = u.scheme + "://"@ + u.trust_domain;
    let port = match u.port {
        Some(p) => seq![':'] + decimal(p as nat),
        None => seq![],
    };
    let path = if u.path == "/"@ {
        seq![]
    } else {
        u.path
    };
    let c = canonical_text(u);
    assert(c == head + port + path);
    assert(c.take(head.len() as int) =~= head);
    assert(c.skip(c.len() - path.len()) =~= path);
    if u.path == "/"@ && u.port is None {
        assert(c =~= head);
    }
}

} // verus!
