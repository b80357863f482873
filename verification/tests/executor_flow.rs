use libcfhdb::errors::CfhdbError;
use libcfhdb::executor::ExecOutcome;
use libcfhdb::usb::CfhdbUsbProfile;

fn profile_with_scripts(
    check: &str,
    install: Option<&str>,
    remove: Option<&str>,
) -> CfhdbUsbProfile {
    CfhdbUsbProfile {
        codename: "p".to_string(),
        i18n_desc: String::new(),
        icon_name: "package-x-generic".to_string(),
        license: "Unknown".to_string(),
        class_codes: vec![],
        vendor_ids: vec![],
        product_ids: vec![],
        blacklisted_class_codes: vec![],
        blacklisted_vendor_ids: vec![],
        blacklisted_product_ids: vec![],
        packages: None,
        check_script: check.to_string(),
        install_script: install.map(|s| s.to_string()),
        remove_script: remove.map(|s| s.to_string()),
        experimental: false,
        removable: false,
        veiled: false,
        priority: 0,
    }
}

fn shell(cmd: &str) {
    duct::cmd("bash", &["-c", cmd]).run().unwrap();
}

#[test]
fn status_reflects_check_script_exit() {
    assert!(profile_with_scripts("true", None, None).get_status());
    assert!(!profile_with_scripts("false", None, None).get_status());
}

#[test]
fn status_check_runs_under_set_dash_e() {
    let p = profile_with_scripts("false\ntrue", None, None);
    assert!(!p.get_status());
}

#[test]
fn install_is_idempotent_once_status_holds() {
    let marker = "/tmp/libcfhdb_test_idempotent_marker";
    shell(&format!("rm -f {marker}"));
    let p = profile_with_scripts(
        &format!("test -e {marker}"),
        Some(&format!("touch {marker}")),
        Some(&format!("rm {marker}")),
    );
    let first = p.install(&None);
    assert_eq!(first, Ok(ExecOutcome::Applied));
    let second = p.install(&None);
    assert_eq!(second, Ok(ExecOutcome::AlreadySettled));
    shell(&format!("rm -f {marker}"));
}

#[test]
fn uninstall_is_symmetric() {
    let marker = "/tmp/libcfhdb_test_uninstall_marker";
    shell(&format!("touch {marker}"));
    let p = profile_with_scripts(
        &format!("test -e {marker}"),
        Some(&format!("touch {marker}")),
        Some(&format!("rm {marker}")),
    );
    let first = p.uninstall(&None);
    assert_eq!(first, Ok(ExecOutcome::Applied));
    let second = p.uninstall(&None);
    assert_eq!(second, Ok(ExecOutcome::AlreadySettled));
}

#[test]
fn install_without_script_or_packages_runs_nothing() {
    let p = profile_with_scripts("false", None, None);
    assert_eq!(p.install(&None), Ok(ExecOutcome::NothingToRun));
}

#[test]
fn failing_install_script_reports_execution_failure() {
    let p = profile_with_scripts("false", Some("exit 3"), None);
    assert_eq!(p.install(&None), Err(CfhdbError::ExecutionFailure));
}

#[test]
fn package_step_runs_before_install_fragment() {
    let log = "/tmp/libcfhdb_test_order_log";
    shell(&format!("rm -f {log}"));
    let p = profile_with_scripts(
        "false",
        Some(&format!("echo fragment >> {log}")),
        None,
    );
    let pkg_cmd = Some(format!("echo packages >> {log}"));
    assert_eq!(p.install(&pkg_cmd), Ok(ExecOutcome::Applied));
    let contents = duct::cmd("bash", &["-c", &format!("cat {log}")]).read().unwrap();
    assert_eq!(contents, "packages\nfragment");
    shell(&format!("rm -f {log}"));
}

#[test]
fn set_dash_e_aborts_remaining_install_steps() {
    let marker = "/tmp/libcfhdb_test_set_e_marker";
    shell(&format!("rm -f {marker}"));
    let p = profile_with_scripts("false", Some(&format!("touch {marker}")), None);
    let pkg_cmd = Some("exit 7".to_string());
    assert_eq!(p.install(&pkg_cmd), Err(CfhdbError::ExecutionFailure));
    let exists = duct::cmd("bash", &["-c", &format!("test -e {marker}")]).run().is_ok();
    assert!(!exists);
}

#[test]
fn error_messages_name_each_failure() {
    assert_eq!(
        CfhdbError::FetchUnavailable.message(),
        "catalog fetch failed and no cache exists"
    );
    assert_eq!(CfhdbError::CatalogCorrupt.message(), "catalog JSON is corrupt");
    assert_eq!(
        CfhdbError::DeviceNotFound.message(),
        "no device with a matching identifier"
    );
    assert_eq!(
        CfhdbError::ProfileNotFound.message(),
        "no profile with a matching codename"
    );
    assert_eq!(CfhdbError::ExecutionFailure.message(), "script execution failed");
}
