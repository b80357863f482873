use libcfhdb::bt::{CfhdbBtDevice, CfhdbBtProfile};
use libcfhdb::errors::CfhdbError;
use libcfhdb::matching::{rules_match, MatchRule};
use libcfhdb::usb::{CfhdbUsbDevice, CfhdbUsbProfile, ProfileWrapper};

fn usb_profile(codename: &str, priority: i32) -> CfhdbUsbProfile {
    CfhdbUsbProfile {
        codename: codename.to_string(),
        i18n_desc: String::new(),
        icon_name: "package-x-generic".to_string(),
        license: "Unknown".to_string(),
        class_codes: vec![],
        vendor_ids: vec![],
        product_ids: vec![],
        blacklisted_class_codes: vec![],
        blacklisted_vendor_ids: vec![],
        blacklisted_product_ids: vec![],
        packages: None,
        check_script: "false".to_string(),
        install_script: None,
        remove_script: None,
        experimental: false,
        removable: false,
        veiled: false,
        priority,
    }
}

fn usb_device(busid: &str, class_code: &str, vendor_id: &str, product_id: &str) -> CfhdbUsbDevice {
    CfhdbUsbDevice {
        manufacturer_string_index: String::new(),
        product_string_index: String::new(),
        serial_number_string_index: String::new(),
        protocol_code: "0000".to_string(),
        class_code: class_code.to_string(),
        vendor_id: vendor_id.to_string(),
        product_id: product_id.to_string(),
        usb_version: "2.0".to_string(),
        bus_number: 1,
        port_number: 1,
        address: 2,
        sysfs_busid: busid.to_string(),
        kernel_driver: "Unknown".to_string(),
        started: None,
        enabled: true,
        speed: "2.0".to_string(),
        available_profiles: ProfileWrapper(None),
    }
}

fn strs(items: &[&str]) -> Vec<String> {
    items.iter().map(|s| s.to_string()).collect()
}

fn rule(value: &str, whitelist: &[&str], blacklist: &[&str]) -> MatchRule {
    MatchRule {
        value: value.to_string(),
        whitelist: strs(whitelist),
        blacklist: strs(blacklist),
    }
}

fn matched_codenames(device: &CfhdbUsbDevice) -> Vec<String> {
    match &device.available_profiles.0 {
        Some(profiles) => profiles.iter().map(|p| p.codename.clone()).collect(),
        None => vec![],
    }
}

#[test]
fn wildcard_whitelist_matches_any_value() {
    let rs = vec![rule("0102", &["*"], &[])];
    assert!(rules_match(&rs));
}

#[test]
fn empty_whitelist_matches_nothing() {
    let rs = vec![rule("0102", &[], &[])];
    assert!(!rules_match(&rs));
}

#[test]
fn whitelist_value_must_equal_attribute() {
    assert!(rules_match(&vec![rule("0102", &["0102"], &[])]));
    assert!(!rules_match(&vec![rule("0102", &["0103"], &[])]));
}

#[test]
fn blacklist_wildcard_excludes_despite_whitelist() {
    let rs = vec![rule("0102", &["*"], &["*"])];
    assert!(!rules_match(&rs));
}

#[test]
fn blacklist_value_excludes_despite_other_fields() {
    let rs = vec![
        rule("0102", &["*"], &[]),
        rule("1d6b", &["*"], &["1d6b"]),
    ];
    assert!(!rules_match(&rs));
}

#[test]
fn conjunction_across_fields_disjunction_within() {
    let rs = vec![
        rule("03", &["03", "09"], &[]),
        rule("1d6b", &["*"], &[]),
    ];
    assert!(rules_match(&rs));
    let rs2 = vec![
        rule("03", &["03", "09"], &[]),
        rule("1d6b", &[], &[]),
    ];
    assert!(!rules_match(&rs2));
}

#[test]
fn set_available_profiles_keeps_catalog_order() {
    let mut low = usb_profile("low", 1);
    low.class_codes = strs(&["*"]);
    low.vendor_ids = strs(&["*"]);
    low.product_ids = strs(&["*"]);
    let mut high = usb_profile("high", 9);
    high.class_codes = strs(&["03"]);
    high.vendor_ids = strs(&["*"]);
    high.product_ids = strs(&["*"]);
    let mut other = usb_profile("other", 5);
    other.class_codes = strs(&["09"]);
    other.vendor_ids = strs(&["*"]);
    other.product_ids = strs(&["*"]);
    let catalog = vec![low, other, high];
    let mut device = usb_device("1-1", "03", "1d6b", "0002");
    CfhdbUsbDevice::set_available_profiles(&catalog, &mut device);
    assert_eq!(matched_codenames(&device), vec!["low".to_string(), "high".to_string()]);
}

#[test]
fn blacklisted_profile_absent_from_slot() {
    let mut p = usb_profile("banned", 0);
    p.class_codes = strs(&["*"]);
    p.vendor_ids = strs(&["*"]);
    p.product_ids = strs(&["*"]);
    p.blacklisted_vendor_ids = strs(&["1d6b"]);
    let catalog = vec![p];
    let mut device = usb_device("1-1", "03", "1d6b", "0002");
    CfhdbUsbDevice::set_available_profiles(&catalog, &mut device);
    assert!(device.available_profiles.0.is_none());
}

#[test]
fn empty_match_leaves_slot_unset() {
    let p = usb_profile("nothing", 0);
    let catalog = vec![p];
    let mut device = usb_device("1-1", "03", "1d6b", "0002");
    CfhdbUsbDevice::set_available_profiles(&catalog, &mut device);
    assert!(device.available_profiles.0.is_none());
}

#[test]
fn get_profile_from_codename_finds_first() {
    let profiles = vec![usb_profile("a", 1), usb_profile("b", 2)];
    let p = CfhdbUsbProfile::get_profile_from_codename("b", profiles).unwrap();
    assert_eq!(p.codename, "b");
    assert_eq!(p.priority, 2);
}

#[test]
fn get_profile_from_codename_miss_is_profile_not_found() {
    let profiles = vec![usb_profile("a", 1)];
    let r = CfhdbUsbProfile::get_profile_from_codename("zzz", profiles);
    assert_eq!(r.err(), Some(CfhdbError::ProfileNotFound));
}

#[test]
fn get_device_from_busid_selects_matching_device() {
    let devices = vec![
        usb_device("1-1", "03", "1d6b", "0001"),
        usb_device("1-2", "09", "1d6b", "0002"),
    ];
    let d = CfhdbUsbDevice::get_device_from_busid("1-2", devices).unwrap();
    assert_eq!(d.class_code, "09");
}

#[test]
fn get_device_from_busid_miss_is_device_not_found() {
    let devices = vec![usb_device("1-1", "03", "1d6b", "0001")];
    let r = CfhdbUsbDevice::get_device_from_busid("9-9", devices);
    assert_eq!(r.err(), Some(CfhdbError::DeviceNotFound));
}

#[test]
fn class_hashmap_groups_by_class_in_order() {
    let devices = vec![
        usb_device("1-1", "03", "1d6b", "0001"),
        usb_device("1-2", "09", "1d6b", "0002"),
        usb_device("1-3", "03", "1d6b", "0003"),
    ];
    let groups = CfhdbUsbDevice::create_class_hashmap(devices);
    assert_eq!(groups.len(), 2);
    assert_eq!(groups[0].0, "03");
    let busids: Vec<String> = groups[0].1.iter().map(|d| d.sysfs_busid.clone()).collect();
    assert_eq!(busids, vec!["1-1".to_string(), "1-3".to_string()]);
    assert_eq!(groups[1].0, "09");
    assert_eq!(groups[1].1.len(), 1);
}

#[test]
fn bt_address_formats_as_uppercase_hex_pairs() {
    let addr = [0x00u8, 0x1A, 0x7D, 0xDA, 0x71, 0x13];
    assert_eq!(libcfhdb::bt::format_bt_address(&addr), "00:1A:7D:DA:71:13");
}

#[test]
fn end_to_end_match_order_and_status() {
    let catalog = "{\"profiles\":[\
        {\"codename\":\"a\",\"class_ids\":[\"*\"],\"priority\":5,\"check_script\":\"true\"},\
        {\"codename\":\"b\",\"class_ids\":[\"0102\"],\"priority\":1,\"check_script\":\"false\"}]}";
    let profiles = libcfhdb::bt::bt_profiles_from_sources(
        Some(catalog.to_string()),
        None,
        "en_US",
        "Unknown",
    )
    .unwrap();
    assert_eq!(profiles.len(), 2);
    let mut matched: Vec<&CfhdbBtProfile> = vec![];
    for p in &profiles {
        let rs = vec![MatchRule {
            value: "0102".to_string(),
            whitelist: p.class_ids.clone(),
            blacklist: p.blacklisted_class_ids.clone(),
        }];
        if rules_match(&rs) {
            matched.push(p);
        }
    }
    let names: Vec<&str> = matched.iter().map(|p| p.codename.as_str()).collect();
    assert_eq!(names, vec!["b", "a"]);
    let a = matched.iter().find(|p| p.codename == "a").unwrap();
    let b = matched.iter().find(|p| p.codename == "b").unwrap();
    assert!(a.get_status());
    assert!(!b.get_status());
}

fn bt_profile_all_wildcards(codename: &str, priority: i32) -> CfhdbBtProfile {
    CfhdbBtProfile {
        codename: codename.to_string(),
        i18n_desc: String::new(),
        icon_name: "package-x-generic".to_string(),
        license: "Unknown".to_string(),
        class_ids: vec!["*".to_string()],
        bt_names: vec!["*".to_string()],
        modalias_vendor_ids: vec!["*".to_string()],
        modalias_device_ids: vec!["*".to_string()],
        modalias_product_ids: vec!["*".to_string()],
        blacklisted_class_ids: vec![],
        blacklisted_bt_names: vec![],
        blacklisted_modalias_vendor_ids: vec![],
        blacklisted_modalias_device_ids: vec![],
        blacklisted_modalias_product_ids: vec![],
        packages: None,
        check_script: "false".to_string(),
        install_script: None,
        remove_script: None,
        experimental: false,
        removable: false,
        veiled: false,
        priority,
    }
}

fn bt_device(address: &str, class_id: &str, name: &str) -> libcfhdb::bt::CfhdbBtDevice {
    libcfhdb::bt::CfhdbBtDevice {
        alias: String::new(),
        name: name.to_string(),
        class_id: class_id.to_string(),
        modalias_vendor_id: "1234".to_string(),
        modalias_product_id: "5678".to_string(),
        modalias_device_id: "9abc".to_string(),
        adapter: "hci0".to_string(),
        paired: false,
        connected: false,
        trusted: false,
        blocked: false,
        address: address.to_string(),
        battery_level: 0,
        available_profiles: libcfhdb::bt::ProfileWrapper(None),
    }
}

#[test]
fn bt_match_needs_every_whitelist_field() {
    let all = bt_profile_all_wildcards("all", 0);
    let mut missing_names = bt_profile_all_wildcards("partial", 1);
    missing_names.bt_names = vec![];
    let catalog = vec![all, missing_names];
    let mut device = bt_device("00:1A:7D:DA:71:13", "7936", "Keyboard");
    CfhdbBtDevice::set_available_profiles(&catalog, &mut device);
    let names: Vec<String> = device
        .available_profiles
        .0
        .as_ref()
        .unwrap()
        .iter()
        .map(|p| p.codename.clone())
        .collect();
    assert_eq!(names, vec!["all".to_string()]);
}

#[test]
fn bt_blacklisted_name_excludes() {
    let mut p = bt_profile_all_wildcards("banned", 0);
    p.blacklisted_bt_names = vec!["Keyboard".to_string()];
    let catalog = vec![p];
    let mut device = bt_device("00:1A:7D:DA:71:13", "7936", "Keyboard");
    CfhdbBtDevice::set_available_profiles(&catalog, &mut device);
    assert!(device.available_profiles.0.is_none());
}

#[test]
fn bt_get_device_from_address_selects() {
    let devices = vec![
        bt_device("00:00:00:00:00:01", "7936", "A"),
        bt_device("00:00:00:00:00:02", "1028", "B"),
    ];
    let d = CfhdbBtDevice::get_device_from_address("00:00:00:00:00:02", devices).unwrap();
    assert_eq!(d.name, "B");
}

#[test]
fn dmi_match_uses_all_eight_fields() {
    let wide = libcfhdb::dmi::CfhdbDmiProfile {
        codename: "board".to_string(),
        i18n_desc: String::new(),
        icon_name: "package-x-generic".to_string(),
        license: "Unknown".to_string(),
        bios_vendors: vec!["*".to_string()],
        board_asset_tags: vec!["*".to_string()],
        board_names: vec!["*".to_string()],
        board_vendors: vec!["ASUS".to_string()],
        product_families: vec!["*".to_string()],
        product_names: vec!["*".to_string()],
        product_skus: vec!["*".to_string()],
        sys_vendors: vec!["*".to_string()],
        blacklisted_bios_vendors: vec![],
        blacklisted_board_asset_tags: vec![],
        blacklisted_board_names: vec![],
        blacklisted_board_vendors: vec![],
        blacklisted_product_families: vec![],
        blacklisted_product_names: vec![],
        blacklisted_product_skus: vec![],
        blacklisted_sys_vendors: vec!["QEMU".to_string()],
        packages: None,
        check_script: "false".to_string(),
        install_script: None,
        remove_script: None,
        experimental: false,
        removable: false,
        veiled: false,
        priority: 0,
    };
    let catalog = vec![wide];
    let mut info = libcfhdb::dmi::CfhdbDmiInfo {
        bios_date: String::new(),
        bios_release: String::new(),
        bios_vendor: "AMI".to_string(),
        bios_version: String::new(),
        board_asset_tag: "tag".to_string(),
        board_name: "PRIME".to_string(),
        board_vendor: "ASUS".to_string(),
        board_version: String::new(),
        product_family: "fam".to_string(),
        product_name: "prod".to_string(),
        product_sku: "sku".to_string(),
        product_version: String::new(),
        sys_vendor: "ASUS".to_string(),
        available_profiles: libcfhdb::dmi::ProfileWrapper(None),
    };
    libcfhdb::dmi::CfhdbDmiInfo::set_available_profiles(&catalog, &mut info);
    assert_eq!(info.available_profiles.0.as_ref().unwrap().len(), 1);
    // the same machine reported by QEMU is blacklisted
    let catalog2 = vec![{
        let mut p = info.available_profiles.0.as_ref().unwrap()[0].duplicate();
        p.board_vendors = vec!["*".to_string()];
        p
    }];
    info.sys_vendor = "QEMU".to_string();
    let mut fresh = libcfhdb::dmi::CfhdbDmiInfo {
        sys_vendor: "QEMU".to_string(),
        available_profiles: libcfhdb::dmi::ProfileWrapper(None),
        ..info
    };
    libcfhdb::dmi::CfhdbDmiInfo::set_available_profiles(&catalog2, &mut fresh);
    assert!(fresh.available_profiles.0.is_none());
}
