//! Header handling of the BMC proxy: which headers are passed on, and how
//! the target host is read from the `Forwarded` header.
use vstd::prelude::*;
use vstd::string::*;
use crate::text::{
    ascii_lower, ascii_lower_vec, chars_equal, chars_of, slice_vec, string_of, trim, trim_vec,
    trim_end_char, trim_end_char_vec, trim_start_char, trim_start_char_vec,
};

verus! {

/// The hop-by-hop header names (lower case).
pub open spec fn hop_by_hop_names() -> Seq<Seq<char>> {
    seq![
        "connection"@,
        "keep-alive"@,
        "proxy-authenticate"@,
        "proxy-authorization"@,
        "te"@,
        "trailer"@,
        "transfer-encoding"@,
        "upgrade"@,
    ]
}

/// Whether `name` equals one of `names` (an exact comparison).
fn is_one_of(name: &Vec<char>, names: &[&str]) -> (b: bool)
    ensures
        b == names@.map_values(|s: &str| s@).contains(name@),
{
    let ghost all = names@.map_values(|s: &str| s@);
    let mut i: usize = 0;
    while i < names.len()
        invariant
            all == names@.map_values(|s: &str| s@),
            i <= names.len(),
            forall|j: int| 0 <= j < i ==> all[j] != name@,
        decreases names.len() - i,
    {
        let n = chars_of(names[i]);
        if chars_equal(n.as_slice(), name.as_slice()) {
            assert(all[i as int] == name@);
            return true;
        }
        i = i + 1;
    }
    false
}

/// Whether `name` (in any ASCII case) is a hop-by-hop header, which a proxy
/// must not forward.
pub fn is_hop_by_hop_header(name: &str) -> (b: bool)
    ensures
        b == hop_by_hop_names().contains(ascii_lower(name@)),
{
    let v = chars_of(name);
    let lower = ascii_lower_vec(&v);
    let names: [&str; 8] = [
        "connection",
        "keep-alive",
        "proxy-authenticate",
        "proxy-authorization",
        "te",
        "trailer",
        "transfer-encoding",
        "upgrade",
    ];
    assert(names@.map_values(|s: &str| s@) =~= hop_by_hop_names());
    is_one_of(&lower, &names)
}

/// Whether a request header is copied to the upstream request.
pub open spec fn request_header_copied(name: Seq<char>) -> bool {
    !(hop_by_hop_names().contains(ascii_lower(name)) || name == "host"@ || name == "authorization"@
        || ascii_lower(name) == "forwarded"@ || name == "content-length"@)
}

/// Whether a response header is passed back to the client.
pub open spec fn response_header_copied(name: Seq<char>) -> bool {
    !(hop_by_hop_names().contains(ascii_lower(name)) || name == "content-length"@)
}

/// Whether a request header (named in lower case, as header names are) is
/// copied to the upstream request: not hop-by-hop, and not `host`,
/// `authorization`, `forwarded` (any case) or `content-length`.
pub fn is_copied_request_header(name: &str) -> (b: bool)
    ensures
        b == request_header_copied(name@),
{
    if is_hop_by_hop_header(name) {
        return false;
    }
    let v = chars_of(name);
    let lower = ascii_lower_vec(&v);
    let host = chars_of("host");
    let auth = chars_of("authorization");
    let fwd = chars_of("forwarded");
    let len = chars_of("content-length");
    !(chars_equal(v.as_slice(), host.as_slice()) || chars_equal(v.as_slice(), auth.as_slice())
        || chars_equal(lower.as_slice(), fwd.as_slice()) || chars_equal(v.as_slice(), len.as_slice()))
}

/// Whether a response header is passed back to the client: not hop-by-hop
/// and not `content-length`.
pub fn is_copied_response_header(name: &str) -> (b: bool)
    ensures
        b == response_header_copied(name@),
{
    if is_hop_by_hop_header(name) {
        return false;
    }
    let v = chars_of(name);
    let len = chars_of("content-length");
    !chars_equal(v.as_slice(), len.as_slice())
}

/// Whether a request with this method carries a body upstream (all but
/// `GET` and `HEAD`).
pub fn method_supports_body(method: &str) -> (b: bool)
    ensures
        b == !(method@ == "GET"@ || method@ == "HEAD"@),
{
    let v = chars_of(method);
    let get = chars_of("GET");
    let head = chars_of("HEAD");
    !(chars_equal(v.as_slice(), get.as_slice()) || chars_equal(v.as_slice(), head.as_slice()))
}

// ---------------------------------------------------------------------
// The `Forwarded` header
// ---------------------------------------------------------------------

/// The pieces of `s` between occurrences of `,` or `;`: the parameters of
/// all elements of a `Forwarded` header value, in order.
pub open spec fn forwarded_pairs(s: Seq<char>) -> Seq<Seq<char>>
    decreases s.len(),
{
    if s.len() == 0 {
        seq![seq![]]
    } else {
        let r = forwarded_pairs(s.drop_last());
        if s.last() == ',' || s.last() == ';' {
            r.push(seq![])
        } else {
            r.update(r.len() - 1, r.last().push(s.last()))
        }
    }
}

/// The position of the first `c` in `s`, if any.
pub open spec fn first_index(s: Seq<char>, c: char) -> Option<int> {
    if s.contains(c) {
        Some(choose|i: int| 0 <= i < s.len() && s[i] == c && forall|j: int| 0 <= j < i ==> s[j] != c)
    } else {
        None
    }
}

/// The position of the last `c` in `s`, if any.
pub open spec fn last_index(s: Seq<char>, c: char) -> Option<int> {
    if s.contains(c) {
        Some(choose|i: int| 0 <= i < s.len() && s[i] == c && forall|j: int| i < j < s.len() ==> s[j] != c)
    } else {
        None
    }
}

/// The value of a `host=value` parameter (key in any ASCII case, both sides
/// trimmed), if the parameter is one.
pub open spec fn host_param_value(pair: Seq<char>) -> Option<Seq<char>> {
    let p = trim(pair);
    match first_index(p, '=') {
        None => None,
        Some(i) => if ascii_lower(trim(p.take(i))) == "host"@ {
            Some(trim(p.skip(i + 1)))
        } else {
            None
        },
    }
}

/// The value of the first host parameter among `pairs`.
pub open spec fn first_host_param(pairs: Seq<Seq<char>>) -> Option<Seq<char>>
    decreases pairs.len(),
{
    if pairs.len() == 0 {
        None
    } else {
        match host_param_value(pairs[0]) {
            Some(v) => Some(v),
            None => first_host_param(pairs.drop_first()),
        }
    }
}

/// Why no target host could be read from the `Forwarded` headers.
pub enum ForwardedHostError {
    /// A header value is not visible ASCII text.
    InvalidHeaderValue,
    /// No `host` parameter is present.
    MissingHost,
}

/// The outcome of reading the target host from the `Forwarded` header
/// values, in order (`None` for a value that is not visible ASCII text).
pub open spec fn forwarded_host_outcome(values: Seq<Option<Seq<char>>>) -> Result<Seq<char>, ForwardedHostError>
    decreases values.len(),
{
    if values.len() == 0 {
        Err(ForwardedHostError::MissingHost)
    } else {
        match values[0] {
            None => Err(ForwardedHostError::InvalidHeaderValue),
            Some(v) => match first_host_param(forwarded_pairs(v)) {
                Some(h) => Ok(h),
                None => forwarded_host_outcome(values.drop_first()),
            },
        }
    }
}

impl ForwardedHostError {
    /// The error's message.
    pub fn to_string(&self) -> (s: String)
        ensures
            self is InvalidHeaderValue ==> s@ == "failed to convert header to a str"@,
            self is MissingHost ==> s@ == "missing Forwarded host parameter"@,
    {
        match self {
            ForwardedHostError::InvalidHeaderValue => string_of(chars_of("failed to convert header to a str").as_slice()),
            ForwardedHostError::MissingHost => string_of(chars_of("missing Forwarded host parameter").as_slice()),
        }
    }
}

proof fn lemma_pairs_nonempty(s: Seq<char>)
    ensures
        forwarded_pairs(s).len() >= 1,
    decreases s.len(),
{
    if s.len() > 0 {
        lemma_pairs_nonempty(s.drop_last());
    }
}

/// Splits a header value at every `,` and `;`.
fn split_pairs(s: &Vec<char>) -> (r: Vec<Vec<char>>)
    ensures
        r@.map_values(|v: Vec<char>| v@) == forwarded_pairs(s@),
{
    let mut done: Vec<Vec<char>> = Vec::new();
    let mut cur: Vec<char> = Vec::new();
    let mut i: usize = 0;
    while i < s.len()
        invariant
            i <= s.len(),
            done@.map_values(|v: Vec<char>| v@).push(cur@) == forwarded_pairs(s@.take(i as int)),
        decreases s.len() - i,
    {
        let ghost pre = s@.take(i as int);
        let ghost old_done = done@.map_values(|v: Vec<char>| v@);
        let ghost old_cur = cur@;
        proof {
            lemma_pairs_nonempty(pre);
        }
        let c = s[i];
        if c == ',' || c == ';' {
            let finished = cur;
            done.push(finished);
            cur = Vec::new();
            assert(done@.map_values(|v: Vec<char>| v@) =~= old_done.push(old_cur));
        } else {
            cur.push(c);
        }
        i = i + 1;
        assert(s@.take(i as int).drop_last() =~= pre);
        assert(done@.map_values(|v: Vec<char>| v@).push(cur@) =~= forwarded_pairs(s@.take(i as int)));
    }
    assert(s@.take(s.len() as int) =~= s@);
    done.push(cur);
    assert(done@.map_values(|v: Vec<char>| v@) =~= forwarded_pairs(s@));
    done
}

/// The position of the first `c` in `s`, if any.
fn find_first(s: &Vec<char>, c: char) -> (r: Option<usize>)
    ensures
        match r {
            Some(i) => first_index(s@, c) == Some(i as int),
            None => first_index(s@, c) is None,
        },
        r matches Some(i) ==> i < s@.len() && s@[i as int] == c,
{
    let mut i: usize = 0;
    while i < s.len()
        invariant
            i <= s.len(),
            forall|j: int| 0 <= j < i ==> s@[j] != c,
        decreases s.len() - i,
    {
        if s[i] == c {
            assert(s@.contains(c));
            let ghost k = choose|k: int| 0 <= k < s@.len() && s@[k] == c && forall|j: int| 0 <= j < k ==> s@[j] != c;
            assert(k == i) by {
                if k < i {
                    assert(s@[k] != c);
                } else if k > i {
                    assert(s@[i as int] != c);
                }
            }
            return Some(i);
        }
        i = i + 1;
    }
    assert(!s@.contains(c));
    None
}

/// The position of the last `c` in `s`, if any.
fn find_last(s: &Vec<char>, c: char) -> (r: Option<usize>)
    ensures
        match r {
            Some(i) => last_index(s@, c) == Some(i as int),
            None => last_index(s@, c) is None,
        },
        r matches Some(i) ==> i < s@.len() && s@[i as int] == c,
{
    let mut i: usize = s.len();
    while i > 0
        invariant
            i <= s.len(),
            forall|j: int| i <= j < s.len() ==> s@[j] != c,
        decreases i,
    {
        if s[i - 1] == c {
            assert(s@.contains(c));
            let ghost k = choose|k: int| 0 <= k < s@.len() && s@[k] == c && forall|j: int| k < j < s@.len() ==> s@[j] != c;
            assert(k == i - 1) by {
                if k < i - 1 {
                    assert(s@[i - 1] != c);
                } else if k > i - 1 {
                    assert(s@[k] != c);
                }
            }
            return Some(i - 1);
        }
        i = i - 1;
    }
    assert(!s@.contains(c));
    None
}

/// The value of a `host=value` parameter, if the parameter is one.
fn host_param(pair: &Vec<char>) -> (r: Option<Vec<char>>)
    ensures
        match r {
            Some(v) => host_param_value(pair@) == Some(v@),
            None => host_param_value(pair@) is None,
        },
{
    let p = trim_vec(pair);
    match find_first(&p, '=') {
        None => None,
        Some(i) => {
            let key = slice_vec(&p, 0, i);
            assert(key@ =~= p@.take(i as int));
            let key_t = trim_vec(&key);
            let key_l = ascii_lower_vec(&key_t);
            let host = chars_of("host");
            if chars_equal(key_l.as_slice(), host.as_slice()) {
                let value = slice_vec(&p, i + 1, p.len());
                assert(value@ =~= p@.skip(i + 1));
                Some(trim_vec(&value))
            } else {
                None
            }
        },
    }
}

proof fn lemma_first_host_param_skip(pairs: Seq<Seq<char>>, k: int)
    requires
        0 <= k <= pairs.len(),
        forall|j: int| 0 <= j < k ==> host_param_value(#[trigger] pairs[j]) is None,
    ensures
        first_host_param(pairs) == first_host_param(pairs.skip(k)),
    decreases k,
{
    if k > 0 {
        assert(host_param_value(pairs[0]) is None);
        assert(pairs.drop_first().skip(k - 1) =~= pairs.skip(k));
        assert forall|j: int| 0 <= j < k - 1 implies host_param_value(#[trigger] pairs.drop_first()[j]) is None by {
            assert(pairs.drop_first()[j] == pairs[j + 1]);
        }
        lemma_first_host_param_skip(pairs.drop_first(), k - 1);
    } else {
        assert(pairs.skip(0) =~= pairs);
    }
}

proof fn lemma_forwarded_skip(values: Seq<Option<Seq<char>>>, k: int)
    requires
        0 <= k <= values.len(),
        forall|j: int| 0 <= j < k ==> (#[trigger] values[j] matches Some(v) && first_host_param(forwarded_pairs(v)) is None),
    ensures
        forwarded_host_outcome(values) == forwarded_host_outcome(values.skip(k)),
    decreases k,
{
    if k > 0 {
        assert(values[0] matches Some(v) && first_host_param(forwarded_pairs(v)) is None);
        assert(values.drop_first().skip(k - 1) =~= values.skip(k));
        assert forall|j: int| 0 <= j < k - 1 implies (#[trigger] values.drop_first()[j] matches Some(v)
            && first_host_param(forwarded_pairs(v)) is None) by {
            assert(values.drop_first()[j] == values[j + 1]);
        }
        lemma_forwarded_skip(values.drop_first(), k - 1);
    } else {
        assert(values.skip(0) =~= values);
    }
}

/// Model of header values: `None` for a value that is not visible ASCII.
pub open spec fn header_values_model(values: Seq<Option<String>>) -> Seq<Option<Seq<char>>> {
    values.map_values(|o: Option<String>| match o {
        Some(s) => Some(s@),
        None => None,
    })
}

/// Reads the target host from the `Forwarded` header values, in order: the
/// value of the first `host=` parameter (key in any case, both sides
/// trimmed) among the `,`/`;`-separated parameters. A value that is not
/// visible ASCII text (`None`) ends the search with an error.
#[verifier::loop_isolation(false)]
pub fn forwarded_host_value(values: &Vec<Option<String>>) -> (r: Result<String, ForwardedHostError>)
    ensures
        match (r, forwarded_host_outcome(header_values_model(values@))) {
            (Ok(h), Ok(m)) => h@ == m,
            (Err(e), Err(m)) => e == m,
            _ => false,
        },
{
    let ghost vals = header_values_model(values@);
    let mut k: usize = 0;
    while k < values.len()
        invariant
            vals == header_values_model(values@),
            k <= values.len(),
            forall|j: int| 0 <= j < k ==> (#[trigger] vals[j] matches Some(v) && first_host_param(forwarded_pairs(v)) is None),
        decreases values.len() - k,
    {
        proof {
            lemma_forwarded_skip(vals, k as int);
            assert(vals.skip(k as int)[0] == vals[k as int]);
            assert(vals.skip(k as int).drop_first() =~= vals.skip(k + 1));
        }
        match &values[k] {
            None => {
                return Err(ForwardedHostError::InvalidHeaderValue);
            },
            Some(raw) => {
                let rv = chars_of(raw.as_str());
                let pairs = split_pairs(&rv);
                let ghost ps = pairs@.map_values(|v: Vec<char>| v@);
                let mut i: usize = 0;
                while i < pairs.len()
                    invariant
                        ps == pairs@.map_values(|v: Vec<char>| v@),
                        ps == forwarded_pairs(rv@),
                        i <= pairs.len(),
                        forall|j: int| 0 <= j < i ==> host_param_value(#[trigger] ps[j]) is None,
                    decreases pairs.len() - i,
                {
                    match host_param(&pairs[i]) {
                        Some(v) => {
                            proof {
                                lemma_first_host_param_skip(ps, i as int);
                                assert(ps.skip(i as int)[0] == ps[i as int]);
                            }
                            return Ok(string_of(v.as_slice()));
                        },
                        None => {},
                    }
                    i = i + 1;
                }
                proof {
                    lemma_first_host_param_skip(ps, ps.len() as int);
                }
            },
        }
        k = k + 1;
    }
    proof {
        lemma_forwarded_skip(vals, vals.len() as int);
    }
    Err(ForwardedHostError::MissingHost)
}


// ---------------------------------------------------------------------
// The host value of a `Forwarded` header
// ---------------------------------------------------------------------

/// The texts of a forwarded host value that may hold its IP address.
pub struct ForwardedHostCandidates {
    /// The value without surrounding double quotes.
    pub whole: String,
    /// For `[address]...`, the text between `[` and the first `]`.
    pub bracketed: Option<String>,
    /// The text before the last `:`, if there is a `:`.
    pub before_port: Option<String>,
}

/// The value without surrounding double quotes.
pub open spec fn unquoted(value: Seq<char>) -> Seq<char> {
    trim_end_char(trim_start_char(value, '"'), '"')
}

/// For `[address]...`, the text between `[` and the first `]`.
pub open spec fn bracketed_part(whole: Seq<char>) -> Option<Seq<char>> {
    if whole.len() > 0 && whole[0] == '[' {
        match first_index(whole.skip(1), ']') {
            Some(i) => Some(whole.skip(1).take(i)),
            None => None,
        }
    } else {
        None
    }
}

/// The text before the last `:`, if there is a `:`.
pub open spec fn before_last_colon(whole: Seq<char>) -> Option<Seq<char>> {
    match last_index(whole, ':') {
        Some(i) => Some(whole.take(i)),
        None => None,
    }
}

pub open spec fn opt_model(o: Option<String>) -> Option<Seq<char>> {
    match o {
        Some(s) => Some(s@),
        None => None,
    }
}

/// Splits a forwarded host value into the texts that may hold its address.
pub fn forwarded_host_candidates(value: &str) -> (c: ForwardedHostCandidates)
    ensures
        c.whole@ == unquoted(value@),
        opt_model(c.bracketed) == bracketed_part(unquoted(value@)),
        opt_model(c.before_port) == before_last_colon(unquoted(value@)),
{
    let v = chars_of(value);
    let a = trim_start_char_vec(&v, '"');
    let whole = trim_end_char_vec(&a, '"');
    let bracketed = if whole.len() > 0 && whole[0] == '[' {
        let rest = slice_vec(&whole, 1, whole.len());
        assert(rest@ =~= whole@.skip(1));
        match find_first(&rest, ']') {
            Some(i) => {
                let b = slice_vec(&rest, 0, i);
                assert(b@ =~= rest@.take(i as int));
                Some(string_of(b.as_slice()))
            },
            None => None,
        }
    } else {
        None
    };
    let before_port = match find_last(&whole, ':') {
        Some(i) => {
            let b = slice_vec(&whole, 0, i);
            assert(b@ =~= whole@.take(i as int));
            Some(string_of(b.as_slice()))
        },
        None => None,
    };
    ForwardedHostCandidates { whole: string_of(whole.as_slice()), bracketed, before_port }
}

/// Which candidate gives the forwarded host address.
pub enum ForwardedHostChoice {
    /// The whole (unquoted) value is an IP address.
    Whole,
    /// The bracketed text decides: its address, or its parse error.
    Bracketed,
    /// The text before the port is an IP address.
    BeforePort,
    /// No candidate is an IP address.
    NotAnIp,
}

/// Picks the candidate that gives the address, given which candidates parse
/// as IP addresses: the whole value first; then, for a bracketed value, the
/// bracketed text whatever it holds; then the text before the last `:`.
pub fn choose_forwarded_host(
    c: &ForwardedHostCandidates,
    whole_is_ip: bool,
    before_port_is_ip: bool,
) -> (r: ForwardedHostChoice)
    ensures
        whole_is_ip ==> r is Whole,
        !whole_is_ip && c.bracketed is Some ==> r is Bracketed,
        !whole_is_ip && c.bracketed is None && c.before_port is Some && before_port_is_ip ==> r is BeforePort,
        !whole_is_ip && c.bracketed is None && !(c.before_port is Some && before_port_is_ip) ==> r is NotAnIp,
{
    if whole_is_ip {
        ForwardedHostChoice::Whole
    } else if c.bracketed.is_some() {
        ForwardedHostChoice::Bracketed
    } else if c.before_port.is_some() && before_port_is_ip {
        ForwardedHostChoice::BeforePort
    } else {
        ForwardedHostChoice::NotAnIp
    }
}


/// Each standard hop-by-hop header (`connection`, `keep-alive`,
/// `proxy-authenticate`, `proxy-authorization`, `te`, `trailer`,
/// `transfer-encoding`, `upgrade`), in any ASCII case, is reported
/// hop-by-hop and is passed on neither upstream nor back to the client.
pub proof fn law_standard_hop_by_hop_headers_are_dropped(name: Seq<char>)
    requires
        ascii_lower(name) == "connection"@ || ascii_lower(name) == "keep-alive"@ || ascii_lower(name)
            == "proxy-authenticate"@ || ascii_lower(name) == "proxy-authorization"@ || ascii_lower(name)
            == "te"@ || ascii_lower(name) == "trailer"@ || ascii_lower(name) == "transfer-encoding"@
            || ascii_lower(name) == "upgrade"@,
    ensures
        hop_by_hop_names().contains(ascii_lower(name)),
        !request_header_copied(name),
        !response_header_copied(name),
{
    let l = ascii_lower(name);
    let hs = hop_by_hop_names();
    if l == "connection"@ {
        assert(hs[0] == l);
    } else if l == "keep-alive"@ {
        assert(hs[1] == l);
    } else if l == "proxy-authenticate"@ {
        assert(hs[2] == l);
    } else if l == "proxy-authorization"@ {
        assert(hs[3] == l);
    } else if l == "te"@ {
        assert(hs[4] == l);
    } else if l == "trailer"@ {
        assert(hs[5] == l);
    } else if l == "transfer-encoding"@ {
        assert(hs[6] == l);
    } else {
        assert(hs[7] == l);
    }
}

} // verus!
