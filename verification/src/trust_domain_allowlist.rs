//! Trust-domain allow lists: exact domains, `*.suffix` (exactly one more
//! label) and `**.suffix` (the suffix itself or any subdomain of it).
use vstd::prelude::*;
use vstd::string::*;
use crate::identity_url::utf8_len;
use crate::text::{
    append_chars, ascii_lower, ascii_lower_vec, chars_equal, chars_of, contains_char, decimal,
    decimal_chars, ends_with, ends_with_vec, starts_with, starts_with_vec, string_of, trim,
    trim_end_char, trim_end_char_vec, trim_vec, slice_vec, is_unicode_whitespace,
    is_ascii_upper, lower_char, lemma_ascii_lower_idempotent, lemma_lower_char_keeps,
    lemma_trim_end_char_shape, lemma_trim_end_dot_lower, lemma_trim_lower, lemma_trim_shape,
    lemma_trim_fixed,
};

verus! {

/// Longest accepted allow-list pattern, in bytes.
pub const MAX_ALLOWLIST_PATTERN_BYTES: usize = 512;

/// One allow-list entry.
pub enum TrustDomainAllowlistPattern {
    /// Matches this domain only.
    ExactDomain(String),
    /// `*.suffix`: matches `label.suffix` for a single non-empty label.
    SingleSubdomainWildcard { suffix: String },
    /// `**.suffix`: matches `suffix` and every domain ending in `.suffix`.
    ManySubdomainWildcard { suffix: String },
}

/// Plain-value model of an allow-list entry.
pub enum PatternModel {
    ExactDomain(Seq<char>),
    SingleSubdomainWildcard(Seq<char>),
    ManySubdomainWildcard(Seq<char>),
}

impl View for TrustDomainAllowlistPattern {
    type V = PatternModel;

    open spec fn view(&self) -> PatternModel {
        match self {
            TrustDomainAllowlistPattern::ExactDomain(d) => PatternModel::ExactDomain(d@),
            TrustDomainAllowlistPattern::SingleSubdomainWildcard { suffix } =>
                PatternModel::SingleSubdomainWildcard(suffix@),
            TrustDomainAllowlistPattern::ManySubdomainWildcard { suffix } =>
                PatternModel::ManySubdomainWildcard(suffix@),
        }
    }
}

/// Why an allow-list entry was refused.
pub enum TrustDomainAllowListError {
    EmptyEntry,
    TooLarge { size: usize, max: usize },
    InvalidPattern(String),
    InvalidWildcards(String),
}

/// Plain-value model of an allow-list error.
pub enum AllowListErrorModel {
    EmptyEntry,
    TooLarge { size: nat, max: nat },
    InvalidPattern(Seq<char>),
    InvalidWildcards(Seq<char>),
}

impl View for TrustDomainAllowListError {
    type V = AllowListErrorModel;

    open spec fn view(&self) -> AllowListErrorModel {
        match self {
            TrustDomainAllowListError::EmptyEntry => AllowListErrorModel::EmptyEntry,
            TrustDomainAllowListError::TooLarge { size, max } => AllowListErrorModel::TooLarge {
                size: *size as nat,
                max: *max as nat,
            },
            TrustDomainAllowListError::InvalidPattern(s) => AllowListErrorModel::InvalidPattern(s@),
            TrustDomainAllowListError::InvalidWildcards(s) => AllowListErrorModel::InvalidWildcards(
                s@,
            ),
        }
    }
}

/// The `Display` text of an allow-list error.
pub open spec fn allowlist_error_text(e: AllowListErrorModel) -> Seq<char> {
    match e {
        AllowListErrorModel::EmptyEntry => "Empty entry (after trim)"@,
        AllowListErrorModel::TooLarge { size, max } => "pattern exceeds "@ + decimal(max)
            + " bytes: "@ + decimal(size),
        AllowListErrorModel::InvalidPattern(s) => "invalid pattern: "@ + s,
        AllowListErrorModel::InvalidWildcards(s) => "wildcards only as `*.` or `**.` prefix ("@ + s
            + ")"@,
    }
}

impl TrustDomainAllowListError {
    /// The error's message, as its `Display` shows it.
    pub fn to_string(&self) -> (s: String)
        ensures
            s@ == allowlist_error_text(self@),
    {
        match self {
            TrustDomainAllowListError::EmptyEntry => string_of(chars_of("Empty entry (after trim)").as_slice()),
            TrustDomainAllowListError::TooLarge { size, max } => {
                let mut v = chars_of("pattern exceeds ");
                let m = decimal_chars(*max as u64);
                append_chars(&mut v, m.as_slice());
                let mid = chars_of(" bytes: ");
                append_chars(&mut v, mid.as_slice());
                let n = decimal_chars(*size as u64);
                append_chars(&mut v, n.as_slice());
                string_of(v.as_slice())
            },
            TrustDomainAllowListError::InvalidPattern(s) => {
                let mut v = chars_of("invalid pattern: ");
                let sv = chars_of(s.as_str());
                append_chars(&mut v, sv.as_slice());
                string_of(v.as_slice())
            },
            TrustDomainAllowListError::InvalidWildcards(s) => {
                let mut v = chars_of("wildcards only as `*.` or `**.` prefix (");
                let sv = chars_of(s.as_str());
                append_chars(&mut v, sv.as_slice());
                let t = chars_of(")");
                append_chars(&mut v, t.as_slice());
                string_of(v.as_slice())
            },
        }
    }
}

/// A domain or pattern as compared: trimmed, trailing dots dropped, ASCII
/// lower-cased.
pub open spec fn normalize(s: Seq<char>) -> Seq<char> {
    ascii_lower(trim_end_char(trim(s), '.'))
}

/// The prefix `**.`.
pub open spec fn many_prefix() -> Seq<char> {
    seq!['*', '*', '.']
}

/// The prefix `*.`.
pub open spec fn single_prefix() -> Seq<char> {
    seq!['*', '.']
}

/// The outcome of parsing one allow-list entry.
pub open spec fn pattern_outcome(raw: Seq<char>) -> Result<PatternModel, AllowListErrorModel> {
    let p = normalize(raw);
    if p.len() == 0 {
        Err(AllowListErrorModel::EmptyEntry)
    } else if utf8_len(p) > MAX_ALLOWLIST_PATTERN_BYTES {
        Err(AllowListErrorModel::TooLarge { size: utf8_len(p), max: MAX_ALLOWLIST_PATTERN_BYTES as nat })
    } else if starts_with(p, many_prefix()) {
        let suffix = p.skip(3);
        if suffix.len() == 0 || suffix.contains('*') {
            Err(AllowListErrorModel::InvalidPattern(raw))
        } else {
            Ok(PatternModel::ManySubdomainWildcard(suffix))
        }
    } else if starts_with(p, single_prefix()) {
        let suffix = p.skip(2);
        if suffix.len() == 0 || suffix.contains('*') {
            Err(AllowListErrorModel::InvalidPattern(raw))
        } else {
            Ok(PatternModel::SingleSubdomainWildcard(suffix))
        }
    } else if p.contains('*') {
        Err(AllowListErrorModel::InvalidWildcards(raw))
    } else {
        Ok(PatternModel::ExactDomain(p))
    }
}

/// Whether an entry allows a trust domain.
pub open spec fn pattern_matches(pat: PatternModel, trust_domain: Seq<char>) -> bool {
    let t = normalize(trust_domain);
    t.len() != 0 && match pat {
        PatternModel::ExactDomain(d) => t == d,
        PatternModel::SingleSubdomainWildcard(suffix) => {
            &&& ends_with(t, seq!['.'] + suffix)
            &&& t.len() > suffix.len() + 1
            &&& !t.take(t.len() - suffix.len() - 1).contains('.')
        },
        PatternModel::ManySubdomainWildcard(suffix) => t == suffix || ends_with(t, seq!['.'] + suffix),
    }
}

/// The text an entry is written as: `domain`, `*.suffix` or `**.suffix`.
pub open spec fn pattern_text(pat: PatternModel) -> Seq<char> {
    match pat {
        PatternModel::ExactDomain(d) => d,
        PatternModel::SingleSubdomainWildcard(suffix) => single_prefix() + suffix,
        PatternModel::ManySubdomainWildcard(suffix) => many_prefix() + suffix,
    }
}

/// Normalizes a domain or pattern the way entries are compared.
fn normalize_vec(s: &Vec<char>) -> (r: Vec<char>)
    ensures
        r@ == normalize(s@),
{
    let t = trim_vec(s);
    let d = trim_end_char_vec(&t, '.');
    ascii_lower_vec(&d)
}

impl TrustDomainAllowlistPattern {
    /// Parses one allow-list entry.
    pub fn from_str(raw: &str) -> (res: Result<TrustDomainAllowlistPattern, TrustDomainAllowListError>)
        ensures
            match (res, pattern_outcome(raw@)) {
                (Ok(p), Ok(m)) => p@ == m,
                (Err(e), Err(m)) => e@ == m,
                _ => false,
            },
    {
        let rv = chars_of(raw);
        let pattern = normalize_vec(&rv);
        if pattern.len() == 0 {
            return Err(TrustDomainAllowListError::EmptyEntry);
        }
        let text = string_of(pattern.as_slice());
        let size = text.as_str().as_bytes().len();
        if size > MAX_ALLOWLIST_PATTERN_BYTES {
            return Err(TrustDomainAllowListError::TooLarge { size, max: MAX_ALLOWLIST_PATTERN_BYTES });
        }
        let many = chars_of("**.");
        let single = chars_of("*.");
        proof {
            reveal_strlit("**.");
            reveal_strlit("*.");
            assert(many@ =~= many_prefix());
            assert(single@ =~= single_prefix());
        }
        if starts_with_vec(pattern.as_slice(), many.as_slice()) {
            let suffix = slice_vec(&pattern, 3, pattern.len());
            assert(suffix@ =~= pattern@.skip(3));
            if suffix.len() == 0 || contains_char(suffix.as_slice(), '*') {
                Err(TrustDomainAllowListError::InvalidPattern(string_of(rv.as_slice())))
            } else {
                Ok(TrustDomainAllowlistPattern::ManySubdomainWildcard { suffix: string_of(suffix.as_slice()) })
            }
        } else if starts_with_vec(pattern.as_slice(), single.as_slice()) {
            let suffix = slice_vec(&pattern, 2, pattern.len());
            assert(suffix@ =~= pattern@.skip(2));
            if suffix.len() == 0 || contains_char(suffix.as_slice(), '*') {
                Err(TrustDomainAllowListError::InvalidPattern(string_of(rv.as_slice())))
            } else {
                Ok(TrustDomainAllowlistPattern::SingleSubdomainWildcard { suffix: string_of(suffix.as_slice()) })
            }
        } else if contains_char(pattern.as_slice(), '*') {
            Err(TrustDomainAllowListError::InvalidWildcards(string_of(rv.as_slice())))
        } else {
            Ok(TrustDomainAllowlistPattern::ExactDomain(text))
        }
    }

    /// Whether this entry allows `trust_domain` (compared trimmed, without
    /// trailing dots and ASCII lower-cased).
    pub fn matches(&self, trust_domain: &str) -> (b: bool)
        ensures
            b == pattern_matches(self@, trust_domain@),
    {
        let tv = chars_of(trust_domain);
        let t = normalize_vec(&tv);
        if t.len() == 0 {
            return false;
        }
        match self {
            TrustDomainAllowlistPattern::ExactDomain(domain) => {
                let d = chars_of(domain.as_str());
                chars_equal(t.as_slice(), d.as_slice())
            },
            TrustDomainAllowlistPattern::SingleSubdomainWildcard { suffix } => {
                let mut tail: Vec<char> = Vec::new();
                tail.push('.');
                let s = chars_of(suffix.as_str());
                append_chars(&mut tail, s.as_slice());
                assert(tail@ =~= seq!['.'] + suffix@);
                if !ends_with_vec(t.as_slice(), tail.as_slice()) {
                    return false;
                }
                let left = slice_vec(&t, 0, t.len() - tail.len());
                assert(left@ =~= t@.take(t@.len() - suffix@.len() - 1));
                left.len() != 0 && !contains_char(left.as_slice(), '.')
            },
            TrustDomainAllowlistPattern::ManySubdomainWildcard { suffix } => {
                let s = chars_of(suffix.as_str());
                if chars_equal(t.as_slice(), s.as_slice()) {
                    return true;
                }
                let mut tail: Vec<char> = Vec::new();
                tail.push('.');
                append_chars(&mut tail, s.as_slice());
                assert(tail@ =~= seq!['.'] + suffix@);
                ends_with_vec(t.as_slice(), tail.as_slice())
            },
        }
    }

    /// The text this entry is written as: `domain`, `*.suffix` or `**.suffix`.
    pub fn to_pattern_string(&self) -> (s: String)
        ensures
            s@ == pattern_text(self@),
    {
        match self {
            TrustDomainAllowlistPattern::ExactDomain(d) => d.clone(),
            TrustDomainAllowlistPattern::SingleSubdomainWildcard { suffix } => {
                let mut v: Vec<char> = Vec::new();
                v.push('*');
                v.push('.');
                let s = chars_of(suffix.as_str());
                append_chars(&mut v, s.as_slice());
                string_of(v.as_slice())
            },
            TrustDomainAllowlistPattern::ManySubdomainWildcard { suffix } => {
                let mut v: Vec<char> = Vec::new();
                v.push('*');
                v.push('*');
                v.push('.');
                let s = chars_of(suffix.as_str());
                append_chars(&mut v, s.as_slice());
                string_of(v.as_slice())
            },
        }
    }
}

/// A list of allow-list entries; an empty list allows every trust domain.
pub struct TrustDomainAllowList {
    entries: Vec<TrustDomainAllowlistPattern>,
}

/// The outcome of parsing a list of entries: every entry parsed, or the
/// error of the first entry that is refused.
pub open spec fn allowlist_outcome(raws: Seq<Seq<char>>) -> Result<Seq<PatternModel>, AllowListErrorModel>
    decreases raws.len(),
{
    if raws.len() == 0 {
        Ok(seq![])
    } else {
        match allowlist_outcome(raws.drop_last()) {
            Err(e) => Err(e),
            Ok(ps) => match pattern_outcome(raws.last()) {
                Err(e) => Err(e),
                Ok(p) => Ok(ps.push(p)),
            },
        }
    }
}

/// Whether a list of entries allows a trust domain.
pub open spec fn list_allows(entries: Seq<PatternModel>, trust_domain: Seq<char>) -> bool {
    entries.len() == 0 || exists|i: int| 0 <= i < entries.len() && pattern_matches(#[trigger] entries[i], trust_domain)
}

impl TrustDomainAllowList {
    /// The entries, as plain values.
    pub closed spec fn patterns(&self) -> Seq<PatternModel> {
        self.entries@.map_values(|p: TrustDomainAllowlistPattern| p@)
    }

    /// The list with no entries (it allows every trust domain).
    pub fn new() -> (l: TrustDomainAllowList)
        ensures
            l.patterns() == Seq::<PatternModel>::empty(),
    {
        let l = TrustDomainAllowList { entries: Vec::new() };
        assert(l.patterns() =~= Seq::<PatternModel>::empty());
        l
    }

    /// Parses every entry; fails with the first entry's error.
    pub fn parse(entries: &[&str]) -> (res: Result<TrustDomainAllowList, TrustDomainAllowListError>)
        ensures
            match (res, allowlist_outcome(entries@.map_values(|s: &str| s@))) {
                (Ok(l), Ok(ps)) => l.patterns() == ps,
                (Err(e), Err(m)) => e@ == m,
                _ => false,
            },
    {
        let ghost raws = entries@.map_values(|s: &str| s@);
        let mut out: Vec<TrustDomainAllowlistPattern> = Vec::new();
        let mut i: usize = 0;
        assert(raws.take(0) =~= Seq::<Seq<char>>::empty());
        assert(out@.map_values(|p: TrustDomainAllowlistPattern| p@) =~= Seq::<PatternModel>::empty());
        while i < entries.len()
            invariant
                raws == entries@.map_values(|s: &str| s@),
                i <= entries.len(),
                out.len() == i,
                allowlist_outcome(raws.take(i as int)) == Ok::<Seq<PatternModel>, AllowListErrorModel>(
                    out@.map_values(|p: TrustDomainAllowlistPattern| p@),
                ),
            decreases entries.len() - i,
        {
            let ghost before = out@.map_values(|p: TrustDomainAllowlistPattern| p@);
            let r = TrustDomainAllowlistPattern::from_str(entries[i]);
            proof {
                assert(raws.take(i + 1).drop_last() =~= raws.take(i as int));
                assert(raws.take(i + 1).last() == entries@[i as int]@);
            }
            match r {
                Ok(p) => {
                    let ghost pv = p@;
                    out.push(p);
                    assert(out@.map_values(|p: TrustDomainAllowlistPattern| p@) =~= before.push(pv));
                },
                Err(e) => {
                    proof {
                        lemma_allowlist_err_extends(raws, i as int + 1);
                    }
                    return Err(e);
                },
            }
            i = i + 1;
        }
        assert(raws.take(entries.len() as int) =~= raws);
        Ok(TrustDomainAllowList { entries: out })
    }

    /// Whether the list allows `trust_domain`: it is empty, or some entry matches.
    pub fn allows(&self, trust_domain: &str) -> (b: bool)
        ensures
            b == list_allows(self.patterns(), trust_domain@),
    {
        if self.entries.len() == 0 {
            return true;
        }
        let mut i: usize = 0;
        while i < self.entries.len()
            invariant
                i <= self.entries.len(),
                self.entries.len() > 0,
                forall|j: int| 0 <= j < i ==> !pattern_matches(#[trigger] self.patterns()[j], trust_domain@),
            decreases self.entries.len() - i,
        {
            if self.entries[i].matches(trust_domain) {
                assert(self.patterns()[i as int] == self.entries@[i as int]@);
                assert(pattern_matches(self.patterns()[i as int], trust_domain@));
                return true;
            }
            assert(self.patterns()[i as int] == self.entries@[i as int]@);
            i = i + 1;
        }
        false
    }

    /// The entries, in order.
    pub fn entries(&self) -> (r: &Vec<TrustDomainAllowlistPattern>)
        ensures
            r@.map_values(|p: TrustDomainAllowlistPattern| p@) == self.patterns(),
    {
        &self.entries
    }
}

proof fn lemma_allowlist_err_extends(raws: Seq<Seq<char>>, k: int)
    requires
        0 < k <= raws.len(),
        allowlist_outcome(raws.take(k)) is Err,
    ensures
        allowlist_outcome(raws) == allowlist_outcome(raws.take(k)),
    decreases raws.len() - k,
{
    if k < raws.len() {
        assert(raws.take(k + 1).drop_last() =~= raws.take(k));
        assert(allowlist_outcome(raws.take(k + 1)) == allowlist_outcome(raws.take(k)));
        lemma_allowlist_err_extends(raws, k + 1);
    } else {
        assert(raws.take(k) =~= raws);
    }
}


// ---------------------------------------------------------------------
// Laws
// ---------------------------------------------------------------------

/// A text of which no character is an ASCII upper-case letter is its own
/// lower-casing.
proof fn lemma_lower_fixed(s: Seq<char>)
    requires
        forall|i: int| 0 <= i < s.len() ==> !is_ascii_upper(#[trigger] s[i]),
    ensures
        ascii_lower(s) == s,
{
    assert(ascii_lower(s) =~= s);
}

/// Normalized text holds no ASCII upper-case letter.
proof fn lemma_normalize_no_upper(s: Seq<char>)
    ensures
        forall|i: int| 0 <= i < normalize(s).len() ==> !is_ascii_upper(#[trigger] normalize(s)[i]),
{
    let z = trim_end_char(trim(s), '.');
    assert forall|i: int| 0 <= i < normalize(s).len() implies !is_ascii_upper(#[trigger] normalize(s)[i]) by {
        lemma_lower_char_keeps(z[i]);
    }
}

/// Normalizing the lower-cased text gives the normalized text.
proof fn lemma_normalize_lower(t: Seq<char>)
    ensures
        normalize(ascii_lower(t)) == normalize(t),
{
    lemma_trim_lower(t);
    lemma_trim_end_dot_lower(trim(t));
    lemma_ascii_lower_idempotent(trim_end_char(trim(t), '.'));
}

/// A normalized text that does not end in whitespace is its own normal form.
proof fn lemma_normalize_stable(raw: Seq<char>)
    requires
        normalize(raw).len() > 0,
        !is_unicode_whitespace(normalize(raw).last()),
    ensures
        normalize(normalize(raw)) == normalize(raw),
{
    let t = trim(raw);
    let z = trim_end_char(t, '.');
    let y = normalize(raw);
    lemma_trim_shape(raw);
    lemma_trim_end_char_shape(t, '.');
    assert(z[0] == t[0]);
    lemma_lower_char_keeps(z[0]);
    lemma_lower_char_keeps(z.last());
    assert(y[0] == lower_char(z[0]));
    assert(y.last() == lower_char(z.last()));
    lemma_trim_fixed(y);
    assert(trim_end_char(y, '.') == y);
    lemma_ascii_lower_idempotent(z);
}

/// An entry's outcome depends on the entry's text only through its
/// normalized form, except for the text an error quotes.
proof fn lemma_outcome_by_normal_form(a: Seq<char>, b: Seq<char>)
    requires
        normalize(a) == normalize(b),
        pattern_outcome(a) is Ok,
    ensures
        pattern_outcome(b) == pattern_outcome(a),
{
}

/// Matching ignores ASCII case: a trust domain is allowed by an entry exactly
/// when its lower-cased form is.
pub proof fn law_matching_ignores_case(pat: PatternModel, trust_domain: Seq<char>)
    ensures
        pattern_matches(pat, ascii_lower(trust_domain)) == pattern_matches(pat, trust_domain),
{
    lemma_normalize_lower(trust_domain);
}

/// Matching ignores one trailing dot on a trust domain that carries no
/// surrounding whitespace.
pub proof fn law_matching_ignores_trailing_dot(pat: PatternModel, trust_domain: Seq<char>)
    requires
        trim(trust_domain) == trust_domain,
    ensures
        pattern_matches(pat, trust_domain.push('.')) == pattern_matches(pat, trust_domain),
{
    let t = trust_domain;
    let u = t.push('.');
    lemma_trim_shape(t);
    if t.len() > 0 {
        assert(u[0] == t[0]);
        lemma_trim_fixed(u);
    } else {
        assert(trim(u) == u);
    }
    assert(u.drop_last() =~= t);
    assert(trim_end_char(u, '.') == trim_end_char(t, '.'));
}

/// An empty allow list allows every trust domain.
pub proof fn law_empty_list_allows_everything(trust_domain: Seq<char>)
    ensures
        list_allows(Seq::<PatternModel>::empty(), trust_domain),
{
}

/// An exact-domain entry allows the text it was parsed from.
pub proof fn law_exact_entry_allows_its_domain(raw: Seq<char>, d: Seq<char>)
    requires
        pattern_outcome(raw) == Ok::<PatternModel, AllowListErrorModel>(PatternModel::ExactDomain(d)),
    ensures
        pattern_matches(PatternModel::ExactDomain(d), raw),
{
}

/// A `*.suffix` entry never allows the bare suffix: the match needs a label
/// in front of it.
pub proof fn law_single_wildcard_needs_a_label(suffix: Seq<char>, trust_domain: Seq<char>)
    requires
        pattern_matches(PatternModel::SingleSubdomainWildcard(suffix), trust_domain),
    ensures
        normalize(trust_domain) != suffix,
        normalize(trust_domain).len() > suffix.len() + 1,
{
}

/// A `**.suffix` entry allows the suffix itself (when the suffix carries no
/// surrounding whitespace).
pub proof fn law_many_wildcard_allows_apex(raw: Seq<char>, suffix: Seq<char>)
    requires
        pattern_outcome(raw) == Ok::<PatternModel, AllowListErrorModel>(
            PatternModel::ManySubdomainWildcard(suffix),
        ),
        !is_unicode_whitespace(suffix[0]),
        !is_unicode_whitespace(suffix.last()),
    ensures
        pattern_matches(PatternModel::ManySubdomainWildcard(suffix), suffix),
{
    let y = normalize(raw);
    let z = trim_end_char(trim(raw), '.');
    lemma_trim_end_char_shape(trim(raw), '.');
    assert(suffix == y.skip(3));
    assert(suffix.last() == y.last());
    lemma_lower_char_keeps(z.last());
    assert(y.last() == lower_char(z.last()));
    lemma_trim_fixed(suffix);
    assert(trim_end_char(suffix, '.') == suffix);
    lemma_normalize_no_upper(raw);
    assert forall|i: int| 0 <= i < suffix.len() implies !is_ascii_upper(#[trigger] suffix[i]) by {
        assert(suffix[i] == y[i + 3]);
    }
    lemma_lower_fixed(suffix);
}

/// An entry is canonical when parsing its written text gives it back.
pub open spec fn pattern_is_canonical(p: PatternModel) -> bool {
    pattern_outcome(pattern_text(p)) == Ok::<PatternModel, AllowListErrorModel>(p)
}

/// Writing an entry and parsing the text gives the entry back, whenever the
/// written text does not end in whitespace.
pub proof fn law_pattern_text_round_trip(raw: Seq<char>, p: PatternModel)
    requires
        pattern_outcome(raw) == Ok::<PatternModel, AllowListErrorModel>(p),
        !is_unicode_whitespace(pattern_text(p).last()),
    ensures
        pattern_is_canonical(p),
{
    let y = normalize(raw);
    match p {
        PatternModel::ExactDomain(d) => {
            assert(pattern_text(p) == y);
        },
        PatternModel::SingleSubdomainWildcard(suffix) => {
            assert(y.take(2) == single_prefix());
            assert(pattern_text(p) =~= y);
        },
        PatternModel::ManySubdomainWildcard(suffix) => {
            assert(y.take(3) == many_prefix());
            assert(pattern_text(p) =~= y);
        },
    }
    lemma_normalize_stable(raw);
    lemma_outcome_by_normal_form(raw, y);
}

/// Writing a list of canonical entries and parsing the texts gives the list
/// back.
pub proof fn law_list_text_round_trip(ps: Seq<PatternModel>)
    requires
        forall|i: int| 0 <= i < ps.len() ==> pattern_is_canonical(#[trigger] ps[i]),
    ensures
        allowlist_outcome(ps.map_values(|p: PatternModel| pattern_text(p))) == Ok::<
            Seq<PatternModel>,
            AllowListErrorModel,
        >(ps),
    decreases ps.len(),
{
    let texts = ps.map_values(|p: PatternModel| pattern_text(p));
    if ps.len() > 0 {
        law_list_text_round_trip(ps.drop_last());
        assert(texts.drop_last() =~= ps.drop_last().map_values(|p: PatternModel| pattern_text(p)));
        assert(pattern_is_canonical(ps[ps.len() - 1]));
        assert(ps.drop_last().push(ps.last()) =~= ps);
    } else {
        assert(texts =~= Seq::<Seq<char>>::empty());
        assert(ps =~= Seq::<PatternModel>::empty());
    }
}


impl PartialEq for TrustDomainAllowlistPattern {
    fn eq(&self, other: &Self) -> (r: bool) {
        match (self, other) {
            (TrustDomainAllowlistPattern::ExactDomain(a), TrustDomainAllowlistPattern::ExactDomain(b)) => *a == *b,
            (
                TrustDomainAllowlistPattern::SingleSubdomainWildcard { suffix: a },
                TrustDomainAllowlistPattern::SingleSubdomainWildcard { suffix: b },
            ) => *a == *b,
            (
                TrustDomainAllowlistPattern::ManySubdomainWildcard { suffix: a },
                TrustDomainAllowlistPattern::ManySubdomainWildcard { suffix: b },
            ) => *a == *b,
            _ => false,
        }
    }
}

impl vstd::std_specs::cmp::PartialEqSpecImpl for TrustDomainAllowlistPattern {
    open spec fn obeys_eq_spec() -> bool {
        true
    }

    open spec fn eq_spec(&self, other: &Self) -> bool {
        self@ == other@
    }
}

impl Eq for TrustDomainAllowlistPattern {}

impl Default for TrustDomainAllowList {
    fn default() -> (l: Self)
        ensures
            l.patterns() == Seq::<PatternModel>::empty(),
    {
        TrustDomainAllowList::new()
    }
}


/// A `**.suffix` entry allows exactly the (normalized) suffix itself and the
/// domains that end in the suffix at a label boundary, with a `.` right
/// before it: a domain that merely ends in the suffix's text is refused.
pub proof fn law_many_wildcard_matches_at_label_boundary(suffix: Seq<char>, trust_domain: Seq<char>)
    ensures
        ({
            let t = normalize(trust_domain);
            let n = suffix.len() as int;
            pattern_matches(PatternModel::ManySubdomainWildcard(suffix), trust_domain) <==> (t.len() > 0 && (t
                == suffix || (t.len() > n && t[t.len() - n - 1] == '.' && t.skip(t.len() - n) == suffix)))
        }),
{
    let t = normalize(trust_domain);
    let n = suffix.len() as int;
    let b = seq!['.'] + suffix;
    if t.len() > n {
        let k = t.len() - n - 1;
        let a = t.skip(k);
        if a == b {
            assert(t[k] == a[0]);
            assert(t.skip(k + 1) =~= a.skip(1));
            assert(b.skip(1) =~= suffix);
        }
        if t[k] == '.' && t.skip(k + 1) == suffix {
            assert forall|i: int| 0 <= i < a.len() implies a[i] == b[i] by {
                if i > 0 {
                    assert(a[i] == t.skip(k + 1)[i - 1]);
                }
            }
            assert(a =~= b);
        }
        assert(t.len() - b.len() == k);
    }
}

} // verus!
