//! Decisions of the admin command line that do not need the API: argument
//! checks, `variable=value` assignments, metadata labels, RMS client
//! settings, SKU metadata records and the machine-validation report text.
use vstd::prelude::*;
use vstd::string::*;
use crate::text::{append_chars, chars_equal, chars_of, reversed, slice_vec, string_of, trim, trim_vec};
use crate::bmc_proxy::{first_index, opt_model};

verus! {

// ---------------------------------------------------------------------
// `mlx config`: variable assignments
// ---------------------------------------------------------------------

/// One `variable=value` assignment.
pub struct VariableAssignment {
    pub variable_name: String,
    pub value: String,
}

/// The assignment written as `text`: split at the first `=`, if any.
pub open spec fn assignment_of(text: Seq<char>) -> Option<(Seq<char>, Seq<char>)> {
    match first_index(text, '=') {
        Some(i) => Some((text.take(i), text.skip(i + 1))),
        None => None,
    }
}

/// The error text for an assignment without `=`.
pub open spec fn assignment_error(text: Seq<char>) -> Seq<char> {
    "invalid assignment format: "@ + text + " (expected: variable=value)"@
}

/// The outcome of parsing assignments: all of them, or the error of the
/// first one without `=`.
pub open spec fn assignments_outcome(texts: Seq<Seq<char>>) -> Result<Seq<(Seq<char>, Seq<char>)>, Seq<char>>
    decreases texts.len(),
{
    if texts.len() == 0 {
        Ok(seq![])
    } else {
        match assignments_outcome(texts.drop_last()) {
            Err(e) => Err(e),
            Ok(done) => match assignment_of(texts.last()) {
                None => Err(assignment_error(texts.last())),
                Some(a) => Ok(done.push(a)),
            },
        }
    }
}

pub open spec fn assignment_model(a: VariableAssignment) -> (Seq<char>, Seq<char>) {
    (a.variable_name@, a.value@)
}

/// The position of the first `c` in `s`.
fn position_of(s: &Vec<char>, c: char) -> (r: Option<usize>)
    ensures
        match r {
            Some(i) => first_index(s@, c) == Some(i as int) && i < s@.len(),
            None => first_index(s@, c) is None,
        },
{
    let mut i: usize = 0;
    while i < s.len()
        invariant
            i <= s.len(),
            forall|j: int| 0 <= j < i ==> s@[j] != c,
        decreases s.len() - i,
    {
        if s[i] == c {
            assert(s@.contains(c));
            let ghost k = choose|k: int| 0 <= k < s@.len() && s@[k] == c && forall|j: int| 0 <= j < k ==> s@[j] != c;
            assert(k == i) by {
                if k < i {
                    assert(s@[k] != c);
                } else if k > i {
                    assert(s@[i as int] != c);
                }
            }
            return Some(i);
        }
        i = i + 1;
    }
    assert(!s@.contains(c));
    None
}

proof fn lemma_assignments_err_extends(texts: Seq<Seq<char>>, k: int)
    requires
        0 < k <= texts.len(),
        assignments_outcome(texts.take(k)) is Err,
    ensures
        assignments_outcome(texts) == assignments_outcome(texts.take(k)),
    decreases texts.len() - k,
{
    if k < texts.len() {
        assert(texts.take(k + 1).drop_last() =~= texts.take(k));
        assert(assignments_outcome(texts.take(k + 1)) == assignments_outcome(texts.take(k)));
        lemma_assignments_err_extends(texts, k + 1);
    } else {
        assert(texts.take(k) =~= texts);
    }
}

/// Parses `variable=value` assignments (split at the first `=`); fails on the
/// first one without `=`.
pub fn parse_assignments(assignments: &[String]) -> (r: Result<Vec<VariableAssignment>, String>)
    ensures
        match (r, assignments_outcome(assignments@.map_values(|s: String| s@))) {
            (Ok(v), Ok(m)) => v@.map_values(|a: VariableAssignment| assignment_model(a)) == m,
            (Err(e), Err(m)) => e@ == m,
            _ => false,
        },
{
    let ghost texts = assignments@.map_values(|s: String| s@);
    let mut result: Vec<VariableAssignment> = Vec::new();
    let mut i: usize = 0;
    assert(texts.take(0) =~= Seq::<Seq<char>>::empty());
    assert(result@.map_values(|a: VariableAssignment| assignment_model(a)) =~= Seq::<(Seq<char>, Seq<char>)>::empty());
    while i < assignments.len()
        invariant
            texts == assignments@.map_values(|s: String| s@),
            i <= assignments.len(),
            assignments_outcome(texts.take(i as int)) == Ok::<Seq<(Seq<char>, Seq<char>)>, Seq<char>>(
                result@.map_values(|a: VariableAssignment| assignment_model(a)),
            ),
        decreases assignments.len() - i,
    {
        let ghost before = result@.map_values(|a: VariableAssignment| assignment_model(a));
        let text = chars_of(assignments[i].as_str());
        proof {
            assert(texts.take(i + 1).drop_last() =~= texts.take(i as int));
            assert(texts.take(i + 1).last() == text@);
        }
        match position_of(&text, '=') {
            None => {
                let mut m = chars_of("invalid assignment format: ");
                append_chars(&mut m, text.as_slice());
                let tail = chars_of(" (expected: variable=value)");
                append_chars(&mut m, tail.as_slice());
                proof {
                    lemma_assignments_err_extends(texts, i + 1);
                }
                return Err(string_of(m.as_slice()));
            },
            Some(k) => {
                let name = slice_vec(&text, 0, k);
                let value = slice_vec(&text, k + 1, text.len());
                assert(name@ =~= text@.take(k as int));
                assert(value@ =~= text@.skip(k + 1));
                result.push(
                    VariableAssignment {
                        variable_name: string_of(name.as_slice()),
                        value: string_of(value.as_slice()),
                    },
                );
                assert(result@.map_values(|a: VariableAssignment| assignment_model(a)) =~= before.push(
                    (name@, value@),
                ));
            },
        }
        i = i + 1;
    }
    assert(texts.take(assignments.len() as int) =~= texts);
    Ok(result)
}

// ---------------------------------------------------------------------
// Metadata labels
// ---------------------------------------------------------------------

/// A metadata label: a key and an optional value.
pub struct Label {
    pub key: String,
    pub value: Option<String>,
}

/// Metadata for a new object.
pub struct Metadata {
    pub name: String,
    pub description: String,
    pub labels: Vec<Label>,
}

/// The label written as `key:value` (split at the first `:`, both sides
/// trimmed) or as a bare key (trimmed).
pub open spec fn label_of(text: Seq<char>) -> (Seq<char>, Option<Seq<char>>) {
    match first_index(text, ':') {
        Some(i) => (trim(text.take(i)), Some(trim(text.skip(i + 1)))),
        None => (trim(text), None),
    }
}

pub open spec fn label_model(l: Label) -> (Seq<char>, Option<Seq<char>>) {
    (l.key@, opt_model(l.value))
}

/// Parses one label.
pub fn parse_label(text: &String) -> (l: Label)
    ensures
        label_model(l) == label_of(text@),
{
    let t = chars_of(text.as_str());
    match position_of(&t, ':') {
        Some(k) => {
            let key = slice_vec(&t, 0, k);
            let value = slice_vec(&t, k + 1, t.len());
            assert(key@ =~= t@.take(k as int));
            assert(value@ =~= t@.skip(k + 1));
            let kt = trim_vec(&key);
            let vt = trim_vec(&value);
            Label { key: string_of(kt.as_slice()), value: Some(string_of(vt.as_slice())) }
        },
        None => {
            let kt = trim_vec(&t);
            Label { key: string_of(kt.as_slice()), value: None }
        },
    }
}

/// The text a label is sent as: `key:value`, or the bare key.
pub open spec fn label_text(key: Seq<char>, value: Option<Seq<char>>) -> Seq<char> {
    match value {
        Some(v) => key + seq![':'] + v,
        None => key,
    }
}

/// Writes a label as `key:value`, or as the bare key when it has no value.
pub fn label_to_text(label: &Label) -> (s: String)
    ensures
        s@ == label_text(label.key@, opt_model(label.value)),
{
    match &label.value {
        Some(v) => {
            let mut t = chars_of(label.key.as_str());
            t.push(':');
            let vv = chars_of(v.as_str());
            append_chars(&mut t, vv.as_slice());
            assert(t@ =~= label.key@ + seq![':'] + v@);
            string_of(t.as_slice())
        },
        None => label.key.clone(),
    }
}

/// A label read back from its text is the label itself, when its key holds
/// no `:` and neither key nor value has surrounding whitespace.
pub proof fn law_label_text_round_trip(key: Seq<char>, value: Option<Seq<char>>)
    requires
        !key.contains(':'),
        trim(key) == key,
        value matches Some(v) ==> trim(v) == v,
    ensures
        label_of(label_text(key, value)) == (key, value),
{
    match value {
        Some(v) => {
            let t = key + seq![':'] + v;
            assert(t[key.len() as int] == ':');
            assert(t.contains(':'));
            let i = first_index(t, ':')->0;
            assert(forall|j: int| 0 <= j < key.len() ==> t[j] == key[j]);
            if i < key.len() {
                assert(key[i] == ':');
                assert(key.contains(':'));
            }
            if i > key.len() {
                assert(t[key.len() as int] == ':');
            }
            assert(i == key.len());
            assert(t.take(i) =~= key);
            assert(t.skip(i + 1) =~= v);
        },
        None => {},
    }
}

/// The metadata given on the command line: none when no name, description
/// or label is given; otherwise the name and description (empty when
/// absent) and the parsed labels, in order.
pub fn metadata_from_args(
    meta_name: Option<String>,
    meta_description: Option<String>,
    labels: Option<Vec<String>>,
) -> (m: Option<Metadata>)
    ensures
        (labels is None && meta_name is None && meta_description is None) <==> m is None,
        m matches Some(md) ==> {
            &&& md.name@ == (match meta_name {
                Some(n) => n@,
                None => Seq::<char>::empty(),
            })
            &&& md.description@ == (match meta_description {
                Some(d) => d@,
                None => Seq::<char>::empty(),
            })
            &&& md.labels@.map_values(|l: Label| label_model(l)) == (match labels {
                Some(ls) => ls@.map_values(|t: String| label_of(t@)),
                None => Seq::<(Seq<char>, Option<Seq<char>>)>::empty(),
            })
        },
{
    if labels.is_none() && meta_name.is_none() && meta_description.is_none() {
        return None;
    }
    let mut out: Vec<Label> = Vec::new();
    match &labels {
        Some(list) => {
            let mut i: usize = 0;
            while i < list.len()
                invariant
                    i <= list.len(),
                    out@.map_values(|l: Label| label_model(l)) == list@.take(i as int).map_values(
                        |t: String| label_of(t@),
                    ),
                decreases list.len() - i,
            {
                let ghost before = out@.map_values(|l: Label| label_model(l));
                let l = parse_label(&list[i]);
                let ghost lm = label_model(l);
                out.push(l);
                i = i + 1;
                assert(out@.map_values(|l: Label| label_model(l)) =~= before.push(lm));
                assert(list@.take(i as int).map_values(|t: String| label_of(t@)) =~= list@.take(
                    i - 1,
                ).map_values(|t: String| label_of(t@)).push(label_of(list@[i - 1]@)));
            }
            assert(list@.take(list.len() as int) =~= list@);
        },
        None => {
            assert(out@.map_values(|l: Label| label_model(l)) =~= Seq::<(Seq<char>, Option<Seq<char>>)>::empty());
        },
    }
    let name = match meta_name {
        Some(n) => n,
        None => String::new(),
    };
    let description = match meta_description {
        Some(d) => d,
        None => String::new(),
    };
    Some(Metadata { name, description, labels: out })
}

// ---------------------------------------------------------------------
// Argument checks
// ---------------------------------------------------------------------

/// An expected power shelf update needs a BMC credential or a serial number.
pub fn validate_power_shelf_update(
    bmc_username: &Option<String>,
    bmc_password: &Option<String>,
    shelf_serial_number: &Option<String>,
) -> (r: Result<(), String>)
    ensures
        r is Err <==> (bmc_username is None && bmc_password is None && shelf_serial_number is None),
        r matches Err(e) ==> e@
            == "One of the following options must be specified: bmc-user-name and bmc-password or shelf-serial-number"@,
{
    if bmc_username.is_none() && bmc_password.is_none() && shelf_serial_number.is_none() {
        return Err(
            string_from_literal(
                "One of the following options must be specified: bmc-user-name and bmc-password or shelf-serial-number",
            ),
        );
    }
    Ok(())
}

fn string_from_literal(s: &str) -> (r: String)
    ensures
        r@ == s@,
{
    string_of(chars_of(s).as_slice())
}

/// A registry credential: URL, user name and password.
pub struct RegistryCredential {
    pub registry_url: String,
    pub username: String,
    pub password: String,
}

/// The registry credential of an extension-service update: none when no
/// part is given, all three parts when all are given, an error otherwise.
pub fn registry_credential(
    username: Option<String>,
    password: Option<String>,
    registry_url: Option<String>,
) -> (r: Result<Option<RegistryCredential>, String>)
    ensures
        (username is None && password is None && registry_url is None) ==> r matches Ok(None),
        (username is Some && password is Some && registry_url is Some) ==> (r matches Ok(Some(c)) && c.username@
            == username->0@ && c.password@ == password->0@ && c.registry_url@ == registry_url->0@),
        r is Err <==> ((username is Some || password is Some || registry_url is Some) && (username is None
            || password is None || registry_url is None)),
        r matches Err(e) ==> e@ == "All of username, password and registry URL are required to create credential"@,
{
    if username.is_some() || password.is_some() || registry_url.is_some() {
        match (username, password, registry_url) {
            (Some(u), Some(p), Some(r)) => Ok(
                Some(RegistryCredential { registry_url: r, username: u, password: p }),
            ),
            _ => Err(
                string_from_literal(
                    "All of username, password and registry URL are required to create credential",
                ),
            ),
        }
    } else {
        Ok(None)
    }
}

// ---------------------------------------------------------------------
// RMS client settings
// ---------------------------------------------------------------------

/// What the RMS client is built from.
pub struct RmsClientSettings {
    pub url: String,
    pub root_ca: Option<String>,
    pub client_cert: Option<String>,
    pub client_key: Option<String>,
    /// TLS is enforced when CA, certificate and key are all known.
    pub enforce_tls: bool,
}

/// The option given on the command line, else the configured one.
pub open spec fn pick(given: Option<String>, configured: Option<String>) -> Option<String> {
    match given {
        Some(x) => Some(x),
        None => configured,
    }
}

/// The RMS client settings: each option from the command line, else from
/// the configuration; none without an API URL.
pub fn rms_client_settings(
    url: Option<String>,
    root_ca: Option<String>,
    client_cert: Option<String>,
    client_key: Option<String>,
    config_url: Option<String>,
    config_root_ca: Option<String>,
    config_client_cert: Option<String>,
    config_client_key: Option<String>,
) -> (r: Option<RmsClientSettings>)
    ensures
        r is None <==> pick(url, config_url) is None,
        r matches Some(s) ==> {
            &&& Some(s.url) == pick(url, config_url)
            &&& s.root_ca == pick(root_ca, config_root_ca)
            &&& s.client_cert == pick(client_cert, config_client_cert)
            &&& s.client_key == pick(client_key, config_client_key)
            &&& s.enforce_tls == (s.root_ca is Some && s.client_cert is Some && s.client_key is Some)
        },
{
    let url = match url {
        Some(x) => x,
        None => match config_url {
            Some(y) => y,
            None => {
                return None;
            },
        },
    };
    let root_ca = match root_ca {
        Some(x) => Some(x),
        None => config_root_ca,
    };
    let client_cert = match client_cert {
        Some(x) => Some(x),
        None => config_client_cert,
    };
    let client_key = match client_key {
        Some(x) => Some(x),
        None => config_client_key,
    };
    let enforce_tls = !(root_ca.is_none() || client_cert.is_none() || client_key.is_none());
    Some(RmsClientSettings { url, root_ca, client_cert, client_key, enforce_tls })
}

// ---------------------------------------------------------------------
// SKU metadata records
// ---------------------------------------------------------------------

/// A SKU metadata update read from one CSV record.
pub struct SkuMetadataUpdate {
    pub sku_id: String,
    pub device_type: Option<String>,
    pub description: Option<String>,
}

/// A non-empty field, if present.
pub open spec fn non_empty_field(fields: Seq<Seq<char>>, i: int) -> Option<Seq<char>> {
    if i < fields.len() && fields[i].len() > 0 {
        Some(fields[i])
    } else {
        None
    }
}

fn non_empty_at(fields: &Vec<String>, i: usize) -> (r: Option<String>)
    ensures
        opt_model(r) == non_empty_field(fields@.map_values(|s: String| s@), i as int),
{
    if i < fields.len() && fields[i].as_str().unicode_len() > 0 {
        Some(fields[i].clone())
    } else {
        None
    }
}

/// The update a CSV record (SKU id, device type, description) asks for:
/// none without a SKU id; empty fields count as absent.
pub fn sku_metadata_from_record(fields: &Vec<String>) -> (r: Option<SkuMetadataUpdate>)
    ensures
        r is None <==> fields@.len() == 0,
        r matches Some(u) ==> {
            &&& u.sku_id@ == fields@[0]@
            &&& opt_model(u.device_type) == non_empty_field(fields@.map_values(|s: String| s@), 1)
            &&& opt_model(u.description) == non_empty_field(fields@.map_values(|s: String| s@), 2)
        },
{
    if fields.len() == 0 {
        return None;
    }
    let sku_id = fields[0].clone();
    let device_type = non_empty_at(fields, 1);
    let description = non_empty_at(fields, 2);
    Some(SkuMetadataUpdate { sku_id, device_type, description })
}

// ---------------------------------------------------------------------
// Machine-validation report text
// ---------------------------------------------------------------------

/// One machine-validation result, with its values as text.
pub struct ValidationResultText {
    pub validation_id: String,
    pub context: String,
    pub name: String,
    pub description: String,
    pub command: String,
    pub args: String,
    pub std_out: String,
    pub std_err: String,
    pub exit_code: String,
    pub start_time: String,
    pub end_time: String,
}

/// Width that keys are padded to.
pub const KEY_WIDTH: usize = 14;

/// `key` left-aligned in `KEY_WIDTH` columns, `: `, the value, a newline.
pub open spec fn detail_line(key: Seq<char>, value: Seq<char>) -> Seq<char> {
    key + Seq::new(if key.len() < KEY_WIDTH { (KEY_WIDTH - key.len()) as nat } else { 0 }, |i: int| ' ')
        + ": "@ + value + seq!['\n']
}

/// The separator line around each result.
pub open spec fn separator_line() -> Seq<char> {
    seq!['\t'] + Seq::new(72, |i: int| '-') + seq!['\n']
}

/// The text block of one result.
pub open spec fn result_block(r: ValidationResultText) -> Seq<char> {
    separator_line() + detail_line("Name"@, r.name@) + detail_line("Description"@, r.description@)
        + detail_line("Command"@, r.command@) + detail_line("Args"@, r.args@) + detail_line(
        "StdOut"@,
        r.std_out@,
    ) + detail_line("StdErr"@, r.std_err@) + detail_line("ExitCode"@, r.exit_code@) + detail_line(
        "StartTime"@,
        r.start_time@,
    ) + detail_line("EndTime"@, r.end_time@) + separator_line()
}

/// The blocks of all results, in order.
pub open spec fn result_blocks(rs: Seq<ValidationResultText>) -> Seq<char>
    decreases rs.len(),
{
    if rs.len() == 0 {
        seq![]
    } else {
        result_blocks(rs.drop_last()) + result_block(rs.last())
    }
}

/// The detailed report: empty for no results; otherwise the first result's
/// run id and context, then each result's block.
pub open spec fn validation_report(rs: Seq<ValidationResultText>) -> Seq<char> {
    if rs.len() == 0 {
        seq![]
    } else {
        detail_line("ID"@, rs[0].validation_id@) + detail_line("CONTEXT"@, rs[0].context@)
            + result_blocks(rs)
    }
}

fn push_detail_line(out: &mut Vec<char>, key: &str, value: &String)
    ensures
        final(out)@ == old(out)@ + detail_line(key@, value@),
{
    let ghost start = out@;
    let k = chars_of(key);
    append_chars(out, k.as_slice());
    let mut pad: usize = 0;
    let n = if k.len() < KEY_WIDTH {
        KEY_WIDTH - k.len()
    } else {
        0
    };
    let ghost base = out@;
    while pad < n
        invariant
            pad <= n,
            out@ == base + Seq::new(pad as nat, |i: int| ' '),
        decreases n - pad,
    {
        out.push(' ');
        pad = pad + 1;
        assert(out@ =~= base + Seq::new(pad as nat, |i: int| ' '));
    }
    let sep = chars_of(": ");
    append_chars(out, sep.as_slice());
    let v = chars_of(value.as_str());
    append_chars(out, v.as_slice());
    out.push('\n');
    assert(out@ =~= start + detail_line(key@, value@));
}

fn push_separator_line(out: &mut Vec<char>)
    ensures
        final(out)@ == old(out)@ + separator_line(),
{
    let ghost start = out@;
    out.push('\t');
    let mut i: usize = 0;
    let ghost base = out@;
    while i < 72
        invariant
            i <= 72,
            out@ == base + Seq::new(i as nat, |j: int| '-'),
        decreases 72 - i,
    {
        out.push('-');
        i = i + 1;
        assert(out@ =~= base + Seq::new(i as nat, |j: int| '-'));
    }
    out.push('\n');
    assert(out@ =~= start + separator_line());
}

fn push_result_block(out: &mut Vec<char>, r: &ValidationResultText)
    ensures
        final(out)@ == old(out)@ + result_block(*r),
{
    let ghost s0 = out@;
    push_separator_line(out);
    push_detail_line(out, "Name", &r.name);
    push_detail_line(out, "Description", &r.description);
    push_detail_line(out, "Command", &r.command);
    push_detail_line(out, "Args", &r.args);
    push_detail_line(out, "StdOut", &r.std_out);
    push_detail_line(out, "StdErr", &r.std_err);
    push_detail_line(out, "ExitCode", &r.exit_code);
    push_detail_line(out, "StartTime", &r.start_time);
    push_detail_line(out, "EndTime", &r.end_time);
    push_separator_line(out);
    assert(out@ =~= s0 + result_block(*r));
}

/// The detailed machine-validation report text.
pub fn validation_report_text(results: &Vec<ValidationResultText>) -> (s: String)
    ensures
        s@ == validation_report(results@),
{
    let mut out: Vec<char> = Vec::new();
    if results.len() == 0 {
        return string_of(out.as_slice());
    }
    push_detail_line(&mut out, "ID", &results[0].validation_id);
    push_detail_line(&mut out, "CONTEXT", &results[0].context);
    let ghost head = out@;
    let mut i: usize = 0;
    while i < results.len()
        invariant
            i <= results.len(),
            out@ == head + result_blocks(results@.take(i as int)),
        decreases results.len() - i,
    {
        push_result_block(&mut out, &results[i]);
        i = i + 1;
        assert(results@.take(i as int).drop_last() =~= results@.take(i - 1));
    }
    assert(results@.take(results.len() as int) =~= results@);
    string_of(out.as_slice())
}

/// Keeps the results of the named test, when a name is given.
#[verifier::loop_isolation(false)]
pub fn retain_test_results(results: Vec<ValidationResultText>, test_name: &Option<String>) -> (r: Vec<
    ValidationResultText,
>)
    ensures
        test_name is None ==> r@ == results@,
        test_name matches Some(n) ==> r@ == results@.filter(|x: ValidationResultText| x.name@ == n@),
{
    match test_name {
        None => results,
        Some(n) => {
            let nv = chars_of(n.as_str());
            let ghost pred = |x: ValidationResultText| x.name@ == n@;
            let ghost orig = results@;
            let total = results.len();
            let mut rest = reversed(results);
            let mut out: Vec<ValidationResultText> = Vec::new();
            let mut k: usize = 0;
            assert(orig.take(0) =~= Seq::<ValidationResultText>::empty());
            assert(orig.take(0).filter(pred) =~= Seq::<ValidationResultText>::empty()) by {
                reveal(Seq::filter);
            }
            while rest.len() > 0
                invariant
                    total == orig.len(),
                    k + rest@.len() == total,
                    forall|j: int| 0 <= j < rest@.len() ==> #[trigger] rest@[j] == orig[total - 1 - j],
                    out@ == orig.take(k as int).filter(pred),
                decreases rest.len(),
            {
                let x = rest.pop().unwrap();
                assert(x == orig[k as int]);
                let xv = chars_of(x.name.as_str());
                let keep = chars_equal(xv.as_slice(), nv.as_slice());
                proof {
                    reveal(Seq::filter);
                    assert(orig.take(k + 1).drop_last() =~= orig.take(k as int));
                    assert(orig.take(k + 1).last() == x);
                }
                assert(keep == pred(x));
                let ghost before = out@;
                if keep {
                    out.push(x);
                    assert(out@ == before.push(x));
                }
                assert(orig.take(k + 1).filter(pred) == if pred(x) {
                    orig.take(k as int).filter(pred).push(x)
                } else {
                    orig.take(k as int).filter(pred)
                });
                k = k + 1;
            }
            assert(orig.take(k as int) =~= orig);
            out
        },
    }
}


// ---------------------------------------------------------------------
// Host reprovisioning and BFB copies
// ---------------------------------------------------------------------

/// The health-override source that marks a host update in progress.
pub open spec fn host_update_source() -> Seq<char> {
    "host-update"@
}

/// Whether a host already carries a `host-update` health override (given the
/// sources of its overrides); reprovisioning with an update message is then
/// refused.
pub fn has_host_update_override(sources: &Vec<String>) -> (b: bool)
    ensures
        b == exists|i: int| 0 <= i < sources@.len() && (#[trigger] sources@[i])@ == host_update_source(),
{
    let want = chars_of("host-update");
    let mut i: usize = 0;
    while i < sources.len()
        invariant
            i <= sources.len(),
            want@ == host_update_source(),
            forall|j: int| 0 <= j < i ==> (#[trigger] sources@[j])@ != host_update_source(),
        decreases sources.len() - i,
    {
        let v = chars_of(sources[i].as_str());
        if chars_equal(v.as_slice(), want.as_slice()) {
            return true;
        }
        i = i + 1;
    }
    false
}

/// One step of copying a BFB image to a DPU's rshim.
pub enum CopyBfbStep {
    /// Force the host off through its BMC.
    PowerOffHost { host_bmc_ip: String },
    /// Wait this many seconds.
    WaitSeconds(u64),
    /// Power the host on through its BMC.
    PowerOnHost { host_bmc_ip: String },
    /// Ask the API to copy the BFB over SSH to the BMC at `address`.
    CopyBfb { address: String, mac_address: Option<String> },
}

/// Plain-value model of a `CopyBfbStep`.
pub enum CopyBfbStepModel {
    PowerOffHost(Seq<char>),
    WaitSeconds(nat),
    PowerOnHost(Seq<char>),
    CopyBfb(Seq<char>, Option<Seq<char>>),
}

impl View for CopyBfbStep {
    type V = CopyBfbStepModel;

    open spec fn view(&self) -> CopyBfbStepModel {
        match self {
            CopyBfbStep::PowerOffHost { host_bmc_ip } => CopyBfbStepModel::PowerOffHost(host_bmc_ip@),
            CopyBfbStep::WaitSeconds(s) => CopyBfbStepModel::WaitSeconds(*s as nat),
            CopyBfbStep::PowerOnHost { host_bmc_ip } => CopyBfbStepModel::PowerOnHost(host_bmc_ip@),
            CopyBfbStep::CopyBfb { address, mac_address } => CopyBfbStepModel::CopyBfb(
                address@,
                opt_model(*mac_address),
            ),
        }
    }
}

/// The steps of a BFB copy, run in order until one fails: with a host BMC
/// address, power-cycle the host first (off, ten seconds, on) so that the
/// DPU has rshim control; then ask for the copy.
pub open spec fn copy_bfb_plan(
    address: Seq<char>,
    mac_address: Option<Seq<char>>,
    host_bmc_ip: Option<Seq<char>>,
) -> Seq<CopyBfbStepModel> {
    let copy = seq![CopyBfbStepModel::CopyBfb(address, mac_address)];
    match host_bmc_ip {
        Some(h) => seq![
            CopyBfbStepModel::PowerOffHost(h),
            CopyBfbStepModel::WaitSeconds(10),
            CopyBfbStepModel::PowerOnHost(h),
        ] + copy,
        None => copy,
    }
}

/// The steps of a BFB copy (see `copy_bfb_plan`).
pub fn copy_bfb_steps(address: String, mac_address: Option<String>, host_bmc_ip: Option<String>) -> (r: Vec<
    CopyBfbStep,
>)
    ensures
        r@.map_values(|s: CopyBfbStep| s@) == copy_bfb_plan(address@, opt_model(mac_address), opt_model(host_bmc_ip)),
{
    let ghost plan = copy_bfb_plan(address@, opt_model(mac_address), opt_model(host_bmc_ip));
    let mut steps: Vec<CopyBfbStep> = Vec::new();
    match host_bmc_ip {
        Some(h) => {
            steps.push(CopyBfbStep::PowerOffHost { host_bmc_ip: h.clone() });
            steps.push(CopyBfbStep::WaitSeconds(10));
            steps.push(CopyBfbStep::PowerOnHost { host_bmc_ip: h });
        },
        None => {},
    }
    steps.push(CopyBfbStep::CopyBfb { address, mac_address });
    assert(steps@.map_values(|s: CopyBfbStep| s@) =~= plan);
    steps
}


/// The report of one result is its run's ID and context lines followed by
/// its block; appending a result to a non-empty list appends exactly its
/// block to the report, so the report holds one block per result, in order.
pub proof fn law_report_has_a_block_per_result(rs: Seq<ValidationResultText>, r: ValidationResultText)
    ensures
        validation_report(seq![r]) == detail_line("ID"@, r.validation_id@) + detail_line("CONTEXT"@, r.context@)
            + result_block(r),
        rs.len() > 0 ==> validation_report(rs.push(r)) == validation_report(rs) + result_block(r),
{
    assert(seq![r].drop_last() =~= Seq::<ValidationResultText>::empty());
    assert(seq![r].last() == r);
    assert(result_blocks(Seq::<ValidationResultText>::empty()) == Seq::<char>::empty());
    assert(result_blocks(seq![r]) =~= result_blocks(Seq::<ValidationResultText>::empty()) + result_block(r));
    if rs.len() > 0 {
        assert(rs.push(r).drop_last() =~= rs);
        assert(rs.push(r)[0] == rs[0]);
        assert(result_blocks(rs.push(r)) == result_blocks(rs) + result_block(r));
        assert(validation_report(rs.push(r)) =~= validation_report(rs) + result_block(r));
    }
}

} // verus!
