use carbide::bmc_proxy::{
    choose_forwarded_host, forwarded_host_candidates, forwarded_host_value, is_copied_request_header,
    is_copied_response_header, is_hop_by_hop_header, method_supports_body, ForwardedHostChoice,
    ForwardedHostError,
};

#[test]
fn hop_by_hop_headers_in_any_case() {
    assert!(is_hop_by_hop_header("Connection"));
    assert!(is_hop_by_hop_header("TE"));
    assert!(is_hop_by_hop_header("transfer-encoding"));
    assert!(!is_hop_by_hop_header("content-type"));
    assert!(!is_hop_by_hop_header("tee"));
}

#[test]
fn request_header_filter() {
    assert!(!is_copied_request_header("host"));
    assert!(!is_copied_request_header("authorization"));
    assert!(!is_copied_request_header("forwarded"));
    assert!(!is_copied_request_header("content-length"));
    assert!(!is_copied_request_header("upgrade"));
    assert!(is_copied_request_header("accept"));
    assert!(!is_copied_response_header("content-length"));
    assert!(is_copied_response_header("content-type"));
}

#[test]
fn only_get_and_head_have_no_body() {
    assert!(!method_supports_body("GET"));
    assert!(!method_supports_body("HEAD"));
    assert!(method_supports_body("POST"));
    assert!(method_supports_body("PATCH"));
}

#[test]
fn forwarded_host_found_among_parameters() {
    let values = vec![Some(String::from("proto=https;host=10.1.2.3;for=10.0.0.1"))];
    assert_eq!(forwarded_host_value(&values).ok().unwrap(), "10.1.2.3");
}

#[test]
fn forwarded_host_key_any_case_and_trimmed() {
    let values = vec![
        Some(String::from("for=1.2.3.4")),
        Some(String::from("proto=http, HOST = \"[2001:db8::1]:443\" ")),
    ];
    assert_eq!(
        forwarded_host_value(&values).ok().unwrap(),
        "\"[2001:db8::1]:443\""
    );
}

#[test]
fn forwarded_host_missing_or_invalid() {
    let values = vec![Some(String::from("for=1.2.3.4"))];
    let err = forwarded_host_value(&values).err().unwrap();
    assert!(matches!(err, ForwardedHostError::MissingHost));
    assert_eq!(err.to_string(), "missing Forwarded host parameter");
    let values = vec![None, Some(String::from("host=1.2.3.4"))];
    assert!(matches!(
        forwarded_host_value(&values).err().unwrap(),
        ForwardedHostError::InvalidHeaderValue
    ));
}

#[test]
fn forwarded_host_candidates_split_brackets_and_port() {
    let c = forwarded_host_candidates("\"[2001:db8::1]:443\"");
    assert_eq!(c.whole, "[2001:db8::1]:443");
    assert_eq!(c.bracketed.as_deref(), Some("2001:db8::1"));
    assert_eq!(c.before_port.as_deref(), Some("[2001:db8::1]"));
    assert!(matches!(
        choose_forwarded_host(&c, false, false),
        ForwardedHostChoice::Bracketed
    ));

    let c = forwarded_host_candidates("10.0.0.5:8080");
    assert_eq!(c.bracketed, None);
    assert_eq!(c.before_port.as_deref(), Some("10.0.0.5"));
    assert!(matches!(
        choose_forwarded_host(&c, false, true),
        ForwardedHostChoice::BeforePort
    ));

    let c = forwarded_host_candidates("10.0.0.5");
    assert!(matches!(choose_forwarded_host(&c, true, false), ForwardedHostChoice::Whole));
    let c = forwarded_host_candidates("example.com");
    assert!(matches!(
        choose_forwarded_host(&c, false, false),
        ForwardedHostChoice::NotAnIp
    ));
}
