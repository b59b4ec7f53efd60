use carbide::admin_cli::{
    label_to_text, parse_label, Label,
    copy_bfb_steps, has_host_update_override, CopyBfbStep,
    metadata_from_args, parse_assignments, registry_credential, retain_test_results,
    rms_client_settings, sku_metadata_from_record, validate_power_shelf_update,
    validation_report_text, ValidationResultText,
};
use carbide::bundle_args::{
    bundle_selection, show_identifier, BundleSelection, IdNameIdentifier, IdentifierType, Rename, Show,
};
use carbide::dpu_watcher::{
    callbacks_for_update, DpuSnapshot, DpuStatusPhase, DpuWatcherBuilder, WatcherCallback,
};
use std::sync::Arc;

#[test]
fn assignments_split_at_first_equals() {
    let ok = parse_assignments(&[String::from("A=1"), String::from("B=x=y")]).ok().unwrap();
    assert_eq!(ok[0].variable_name, "A");
    assert_eq!(ok[0].value, "1");
    assert_eq!(ok[1].variable_name, "B");
    assert_eq!(ok[1].value, "x=y");
    let err = parse_assignments(&[String::from("A=1"), String::from("oops")]).err().unwrap();
    assert_eq!(err, "invalid assignment format: oops (expected: variable=value)");
}

#[test]
fn metadata_labels_are_split_and_trimmed() {
    assert!(metadata_from_args(None, None, None).is_none());
    let m = metadata_from_args(
        None,
        Some(String::from("d")),
        Some(vec![String::from(" DC : XYZ "), String::from(" bare ")]),
    )
    .unwrap();
    assert_eq!(m.name, "");
    assert_eq!(m.description, "d");
    assert_eq!(m.labels[0].key, "DC");
    assert_eq!(m.labels[0].value.as_deref(), Some("XYZ"));
    assert_eq!(m.labels[1].key, "bare");
    assert_eq!(m.labels[1].value, None);
}

#[test]
fn argument_checks() {
    assert!(validate_power_shelf_update(&None, &None, &None).is_err());
    assert!(validate_power_shelf_update(&None, &None, &Some(String::from("SN"))).is_ok());
    assert!(registry_credential(None, None, None).ok().unwrap().is_none());
    let c = registry_credential(
        Some(String::from("u")),
        Some(String::from("p")),
        Some(String::from("r")),
    )
    .ok()
    .unwrap()
    .unwrap();
    assert_eq!((c.username.as_str(), c.password.as_str(), c.registry_url.as_str()), ("u", "p", "r"));
    assert_eq!(
        registry_credential(Some(String::from("u")), None, None).err().unwrap(),
        "All of username, password and registry URL are required to create credential"
    );
}

#[test]
fn rms_settings_prefer_command_line() {
    assert!(rms_client_settings(None, None, None, None, None, None, None, None).is_none());
    let s = rms_client_settings(
        None,
        Some(String::from("ca")),
        None,
        None,
        Some(String::from("https://rms")),
        Some(String::from("cfg-ca")),
        Some(String::from("cert")),
        Some(String::from("key")),
    )
    .unwrap();
    assert_eq!(s.url, "https://rms");
    assert_eq!(s.root_ca.as_deref(), Some("ca"));
    assert!(s.enforce_tls);
    let s = rms_client_settings(Some(String::from("u")), None, None, None, None, None, None, None).unwrap();
    assert!(!s.enforce_tls);
}

#[test]
fn sku_records() {
    assert!(sku_metadata_from_record(&vec![]).is_none());
    let u = sku_metadata_from_record(&vec![String::from("sku1"), String::from(""), String::from("desc")]).unwrap();
    assert_eq!(u.sku_id, "sku1");
    assert_eq!(u.device_type, None);
    assert_eq!(u.description.as_deref(), Some("desc"));
}

fn result(name: &str) -> ValidationResultText {
    ValidationResultText {
        validation_id: String::from("run-1"),
        context: String::from("Discovery"),
        name: String::from(name),
        description: String::from("d"),
        command: String::from("c"),
        args: String::from("a"),
        std_out: String::from("o"),
        std_err: String::from("e"),
        exit_code: String::from("0"),
        start_time: String::from("s"),
        end_time: String::from("t"),
    }
}

#[test]
fn validation_report_layout() {
    assert_eq!(validation_report_text(&vec![]), "");
    let text = validation_report_text(&vec![result("cpu")]);
    let sep = format!("\t{}\n", "-".repeat(72));
    let expected = format!(
        "ID            : run-1\nCONTEXT       : Discovery\n{sep}Name          : cpu\nDescription   : d\nCommand       : c\nArgs          : a\nStdOut        : o\nStdErr        : e\nExitCode      : 0\nStartTime     : s\nEndTime       : t\n{sep}"
    );
    assert_eq!(text, expected);
}

#[test]
fn retain_keeps_named_tests_in_order() {
    let rs = vec![result("a"), result("b"), result("a")];
    let kept = retain_test_results(rs, &Some(String::from("a")));
    assert_eq!(kept.len(), 2);
    let all = retain_test_results(vec![result("a"), result("b")], &None);
    assert_eq!(all.len(), 2);
}

#[test]
fn id_name_flags() {
    let r = Rename {
        identifier: String::from("x"),
        new_bundle_name: String::from("y"),
        is_id: true,
        is_name: false,
    };
    assert!(r.is_id() && !r.is_name());
    let s = Show { identifier: None, is_id: false, is_name: true };
    assert!(!s.is_id() && s.is_name());
}

fn snapshot(phase: Option<DpuStatusPhase>) -> DpuSnapshot {
    DpuSnapshot {
        name: Some(String::from("dpu-0")),
        status_phase: phase,
        device_name: String::from("dev"),
        node_name: String::from("node"),
        bmc_ip: None,
    }
}

#[test]
fn watcher_dispatch_by_phase() {
    assert!(callbacks_for_update(&snapshot(None)).is_empty());
    let cbs = callbacks_for_update(&snapshot(Some(DpuStatusPhase::Rebooting)));
    assert_eq!(cbs.len(), 2);
    assert!(matches!(&cbs[0], WatcherCallback::DpuEvent(e) if e.dpu_name == "dpu-0"));
    assert!(matches!(&cbs[1], WatcherCallback::RebootRequired(e) if e.host_bmc_ip.is_empty()));
    let cbs = callbacks_for_update(&snapshot(Some(DpuStatusPhase::NodeEffect)));
    assert!(matches!(&cbs[1], WatcherCallback::Maintenance(e) if e.node_name == "node"));
    let cbs = callbacks_for_update(&snapshot(Some(DpuStatusPhase::Other(String::from("Pending")))));
    assert_eq!(cbs.len(), 1);
    let mut s = snapshot(Some(DpuStatusPhase::Ready));
    s.name = None;
    assert!(callbacks_for_update(&s).is_empty());
}

#[test]
fn watcher_builder_keeps_settings() {
    let b = DpuWatcherBuilder::new(Arc::new(5u8), "dpf-operator-system")
        .with_label_selector("app=dpu")
        .on_dpu_ready(1u32)
        .on_error(2u64);
    let (repo, ns, sel, cbs) = b.into_parts();
    assert_eq!(*repo, 5);
    assert_eq!(ns, "dpf-operator-system");
    assert_eq!(sel.as_deref(), Some("app=dpu"));
    assert_eq!(cbs.ready, 1u32);
    assert_eq!(cbs.error, 2u64);
}

#[test]
fn bundle_selection_by_declared_kind() {
    assert!(matches!(bundle_selection(&IdentifierType::ForId, true), BundleSelection::ById));
    assert!(matches!(bundle_selection(&IdentifierType::ForId, false), BundleSelection::InvalidId));
    assert!(matches!(bundle_selection(&IdentifierType::ForName, true), BundleSelection::ByName));
    assert!(matches!(bundle_selection(&IdentifierType::ForName, false), BundleSelection::ByName));
    assert!(matches!(bundle_selection(&IdentifierType::Detect, true), BundleSelection::ById));
    assert!(matches!(bundle_selection(&IdentifierType::Detect, false), BundleSelection::ByName));
}

#[test]
fn show_needs_an_identifier() {
    let given = Show { identifier: Some(String::from("bundle-a")), is_id: false, is_name: true };
    assert_eq!(show_identifier(given).ok().unwrap(), "bundle-a");
    let missing = Show { identifier: None, is_id: false, is_name: false };
    assert_eq!(show_identifier(missing).err().unwrap(), "identifier expected to be set here");
}

#[test]
fn host_update_override_is_found_by_source() {
    let sources = vec![String::from("maintenance"), String::from("host-update")];
    assert!(has_host_update_override(&sources));
    let other = vec![String::from("Host-Update"), String::from("host-update ")];
    assert!(!has_host_update_override(&other));
    assert!(!has_host_update_override(&Vec::new()));
}

#[test]
fn bfb_copy_power_cycles_host_first() {
    let steps = copy_bfb_steps(
        String::from("10.0.0.9"),
        Some(String::from("aa:bb:cc:dd:ee:ff")),
        Some(String::from("10.0.0.2")),
    );
    assert_eq!(steps.len(), 4);
    assert!(matches!(&steps[0], CopyBfbStep::PowerOffHost { host_bmc_ip } if host_bmc_ip == "10.0.0.2"));
    assert!(matches!(&steps[1], CopyBfbStep::WaitSeconds(10)));
    assert!(matches!(&steps[2], CopyBfbStep::PowerOnHost { host_bmc_ip } if host_bmc_ip == "10.0.0.2"));
    assert!(matches!(&steps[3], CopyBfbStep::CopyBfb { address, mac_address }
        if address == "10.0.0.9" && mac_address.as_deref() == Some("aa:bb:cc:dd:ee:ff")));
    let direct = copy_bfb_steps(String::from("bmc.example"), None, None);
    assert_eq!(direct.len(), 1);
    assert!(matches!(&direct[0], CopyBfbStep::CopyBfb { address, mac_address }
        if address == "bmc.example" && mac_address.is_none()));
}

#[test]
fn label_text_reads_back() {
    let with_value = Label { key: String::from("rack"), value: Some(String::from("r12")) };
    let text = label_to_text(&with_value);
    assert_eq!(text, "rack:r12");
    let back = parse_label(&text);
    assert_eq!(back.key, "rack");
    assert_eq!(back.value.as_deref(), Some("r12"));
    let bare = Label { key: String::from("gpu"), value: None };
    assert_eq!(label_to_text(&bare), "gpu");
    let back = parse_label(&label_to_text(&bare));
    assert_eq!(back.key, "gpu");
    assert!(back.value.is_none());
}
