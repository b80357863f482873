use libcfhdb::errors::CfhdbError;
use libcfhdb::usb::{usb_profiles_from_sources, CfhdbUsbProfile};

fn parse(text: &str, locale: &str) -> Result<Vec<CfhdbUsbProfile>, CfhdbError> {
    usb_profiles_from_sources(Some(text.to_string()), None, locale, "Unknown")
}

#[test]
fn fetch_failure_falls_back_to_cache() {
    let cache = "{\"profiles\":[{\"codename\":\"cached\",\"priority\":3}]}";
    let profiles = usb_profiles_from_sources(None, Some(cache.to_string()), "en_US", "Unknown")
        .unwrap();
    assert_eq!(profiles.len(), 1);
    assert_eq!(profiles[0].codename, "cached");
}

#[test]
fn fetch_failure_without_cache_is_unavailable() {
    let r = usb_profiles_from_sources(None, None, "en_US", "Unknown");
    assert_eq!(r.err(), Some(CfhdbError::FetchUnavailable));
}

#[test]
fn fetched_body_wins_over_cache() {
    let fresh = "{\"profiles\":[{\"codename\":\"fresh\"}]}";
    let stale = "{\"profiles\":[{\"codename\":\"stale\"}]}";
    let profiles = usb_profiles_from_sources(
        Some(fresh.to_string()),
        Some(stale.to_string()),
        "en_US",
        "Unknown",
    )
    .unwrap();
    assert_eq!(profiles.len(), 1);
    assert_eq!(profiles[0].codename, "fresh");
}

#[test]
fn invalid_json_is_corrupt() {
    let r = parse("this is not json", "en_US");
    assert_eq!(r.err(), Some(CfhdbError::CatalogCorrupt));
}

#[test]
fn missing_profiles_key_yields_empty_catalog() {
    assert_eq!(parse("{}", "en_US").unwrap().len(), 0);
    assert_eq!(parse("{\"profiles\": 5}", "en_US").unwrap().len(), 0);
}

#[test]
fn catalog_sorted_ascending_with_stable_ties() {
    let text = "{\"profiles\":[\
        {\"codename\":\"x\",\"priority\":1},\
        {\"codename\":\"z\",\"priority\":0},\
        {\"codename\":\"y\",\"priority\":1}]}";
    let profiles = parse(text, "en_US").unwrap();
    let names: Vec<&str> = profiles.iter().map(|p| p.codename.as_str()).collect();
    assert_eq!(names, vec!["z", "x", "y"]);
    assert_eq!(profiles[0].priority, 0);
    assert_eq!(profiles[1].priority, 1);
    assert_eq!(profiles[2].priority, 1);
}

#[test]
fn locale_description_wins_when_non_empty() {
    let text = "{\"profiles\":[{\"codename\":\"p\",\
        \"i18n_desc[fr]\":\"texte\",\"i18n_desc\":\"desc\"}]}";
    let profiles = parse(text, "fr").unwrap();
    assert_eq!(profiles[0].i18n_desc, "texte");
}

#[test]
fn empty_locale_description_falls_through_to_base() {
    let text = "{\"profiles\":[{\"codename\":\"p\",\
        \"i18n_desc[fr]\":\"\",\"i18n_desc\":\"desc\"}]}";
    let profiles = parse(text, "fr").unwrap();
    assert_eq!(profiles[0].i18n_desc, "desc");
}

#[test]
fn missing_locale_description_falls_through_to_base() {
    let text = "{\"profiles\":[{\"codename\":\"p\",\"i18n_desc\":\"desc\"}]}";
    let profiles = parse(text, "fr").unwrap();
    assert_eq!(profiles[0].i18n_desc, "desc");
    let none = parse("{\"profiles\":[{\"codename\":\"p\"}]}", "fr").unwrap();
    assert_eq!(none[0].i18n_desc, "");
}

#[test]
fn defaults_apply_to_absent_fields() {
    let profiles = parse("{\"profiles\":[{}]}", "en_US").unwrap();
    let p = &profiles[0];
    assert_eq!(p.codename, "");
    assert_eq!(p.icon_name, "package-x-generic");
    assert_eq!(p.license, "Unknown");
    assert_eq!(p.check_script, "false");
    assert_eq!(p.priority, 0);
    assert!(p.class_codes.is_empty());
    assert!(p.packages.is_none());
    assert!(!p.experimental);
    assert!(!p.removable);
    assert!(!p.veiled);
}

#[test]
fn script_sentinel_means_no_script() {
    let text = "{\"profiles\":[{\"codename\":\"p\",\
        \"install_script\":\"Option::is_none\",\"remove_script\":\"echo hi\"}]}";
    let profiles = parse(text, "en_US").unwrap();
    assert!(profiles[0].install_script.is_none());
    assert_eq!(profiles[0].remove_script.as_deref(), Some("echo hi"));
}

#[test]
fn packages_string_form_carries_no_list() {
    let text = "{\"profiles\":[{\"codename\":\"p\",\"packages\":\"pkg-a pkg-b\"}]}";
    let profiles = parse(text, "en_US").unwrap();
    assert!(profiles[0].packages.is_none());
}

#[test]
fn packages_array_form_is_kept_with_coercion() {
    let text = "{\"profiles\":[{\"codename\":\"p\",\"packages\":[\"a\",7,\"b\"]}]}";
    let profiles = parse(text, "en_US").unwrap();
    assert_eq!(
        profiles[0].packages,
        Some(vec!["a".to_string(), "".to_string(), "b".to_string()])
    );
}

#[test]
fn packages_other_shape_corrupts_catalog() {
    let text = "{\"profiles\":[{\"codename\":\"good\",\"packages\":[]},\
        {\"codename\":\"bad\",\"packages\":7}]}";
    let r = parse(text, "en_US");
    assert_eq!(r.err(), Some(CfhdbError::CatalogCorrupt));
}

#[test]
fn non_integer_priority_defaults_to_zero() {
    let text = "{\"profiles\":[{\"codename\":\"p\",\"priority\":\"high\"},\
        {\"codename\":\"q\",\"priority\":2.5}]}";
    let profiles = parse(text, "en_US").unwrap();
    assert_eq!(profiles[0].priority, 0);
    assert_eq!(profiles[1].priority, 0);
}

#[test]
fn field_lists_coerce_elements_to_strings() {
    let text = "{\"profiles\":[{\"codename\":\"p\",\"class_codes\":[\"03\",9,\"FF\"],\
        \"vendor_ids\":\"oops\"}]}";
    let profiles = parse(text, "en_US").unwrap();
    assert_eq!(
        profiles[0].class_codes,
        vec!["03".to_string(), "".to_string(), "FF".to_string()]
    );
    assert!(profiles[0].vendor_ids.is_empty());
}

#[test]
fn bool_flags_parse_and_default() {
    let text = "{\"profiles\":[{\"codename\":\"p\",\"experimental\":true,\
        \"removable\":false,\"veiled\":true}]}";
    let profiles = parse(text, "en_US").unwrap();
    assert!(profiles[0].experimental);
    assert!(!profiles[0].removable);
    assert!(profiles[0].veiled);
}

#[test]
fn dmi_catalog_parses_all_field_lists() {
    let text = "{\"profiles\":[{\"codename\":\"board\",\
        \"board_vendors\":[\"ASUS\"],\"blacklisted_sys_vendors\":[\"QEMU\"],\"priority\":-4}]}";
    let profiles = libcfhdb::dmi::dmi_profiles_from_sources(
        Some(text.to_string()),
        None,
        "en_US",
        "Unknown",
    )
    .unwrap();
    assert_eq!(profiles[0].board_vendors, vec!["ASUS".to_string()]);
    assert_eq!(profiles[0].blacklisted_sys_vendors, vec!["QEMU".to_string()]);
    assert_eq!(profiles[0].priority, -4);
}

#[test]
fn out_of_range_priority_wraps_to_32_bits() {
    let text = "{\"profiles\":[{\"codename\":\"p\",\"priority\":2147483648}]}";
    let profiles = parse(text, "en_US").unwrap();
    assert_eq!(profiles[0].priority, -2147483648);
}
