use vstd::prelude::*;

use crate::catalog::{
    find_by_codename, insert_by_priority, lemma_filter_keeps_relative_order,
    lemma_filter_keeps_sorted, lemma_filter_membership, pair_in_order, sorted_by, stable_insert,
    CatalogEntry,
};
use crate::errors::CfhdbError;
use crate::executor::{execute_plan, plan_action, run_status_check, ExecOutcome};
use crate::fetch::resolve_catalog_source;
use crate::json::{
    all_packages_ok, json_of, parse_json, spec_bool_field, spec_desc, spec_int_field,
    spec_packages, spec_profiles_array, spec_script, spec_str_field_or, spec_str_list, Json,
};
use crate::matching::{list_hits, rule_permits, rule_rejects, rules_match, rules_match_spec,
    rules_permit, rules_reject, MatchRule};
use crate::strutil::{
    clone_opt_string, clone_opt_string_vec, clone_string_vec, str_eq, truncate_i64_to_i32,
};

verus! {

/// The mathematical image of a USB profile record.
pub ghost struct UsbProfileV {
    pub codename: Seq<char>,
    pub i18n_desc: Seq<char>,
    pub icon_name: Seq<char>,
    pub license: Seq<char>,
    pub class_codes: Seq<Seq<char>>,
    pub vendor_ids: Seq<Seq<char>>,
    pub product_ids: Seq<Seq<char>>,
    pub blacklisted_class_codes: Seq<Seq<char>>,
    pub blacklisted_vendor_ids: Seq<Seq<char>>,
    pub blacklisted_product_ids: Seq<Seq<char>>,
    pub packages: Option<Seq<Seq<char>>>,
    pub check_script: Seq<char>,
    pub install_script: Option<Seq<char>>,
    pub remove_script: Option<Seq<char>>,
    pub experimental: bool,
    pub removable: bool,
    pub veiled: bool,
    pub priority: int,
}

/// A declarative catalog entry for the USB domain: which devices it applies
/// to (whitelist and blacklist field lists over class, vendor and product
/// identifiers) and how to install, remove and status-check the associated
/// software.
pub struct CfhdbUsbProfile {
    pub codename: String,
    pub i18n_desc: String,
    pub icon_name: String,
    pub license: String,
    pub class_codes: Vec<String>,
    pub vendor_ids: Vec<String>,
    pub product_ids: Vec<String>,
    pub blacklisted_class_codes: Vec<String>,
    pub blacklisted_vendor_ids: Vec<String>,
    pub blacklisted_product_ids: Vec<String>,
    pub packages: Option<Vec<String>>,
    pub check_script: String,
    pub install_script: Option<String>,
    pub remove_script: Option<String>,
    pub experimental: bool,
    pub removable: bool,
    pub veiled: bool,
    pub priority: i32,
}

impl View for CfhdbUsbProfile {
    type V = UsbProfileV;

    open spec fn view(&self) -> UsbProfileV {
        UsbProfileV {
            codename: self.codename@,
            i18n_desc: self.i18n_desc@,
            icon_name: self.icon_name@,
            license: self.license@,
            class_codes: self.class_codes.deep_view(),
            vendor_ids: self.vendor_ids.deep_view(),
            product_ids: self.product_ids.deep_view(),
            blacklisted_class_codes: self.blacklisted_class_codes.deep_view(),
            blacklisted_vendor_ids: self.blacklisted_vendor_ids.deep_view(),
            blacklisted_product_ids: self.blacklisted_product_ids.deep_view(),
            packages: self.packages.deep_view(),
            check_script: self.check_script@,
            install_script: self.install_script.deep_view(),
            remove_script: self.remove_script.deep_view(),
            experimental: self.experimental,
            removable: self.removable,
            veiled: self.veiled,
            priority: self.priority as int,
        }
    }
}

impl DeepView for CfhdbUsbProfile {
    type V = UsbProfileV;

    open spec fn deep_view(&self) -> UsbProfileV {
        self.view()
    }
}

impl CatalogEntry for CfhdbUsbProfile {
    open spec fn priority_spec(&self) -> int {
        self@.priority
    }

    open spec fn codename_spec(&self) -> Seq<char> {
        self@.codename
    }

    fn priority_value(&self) -> (r: i32) {
        self.priority
    }

    fn codename_is(&self, name: &str) -> (r: bool) {
        str_eq(self.codename.as_str(), name)
    }
}

impl CfhdbUsbProfile {
    /// A copy of the record with the same mathematical image.
    pub fn duplicate(&self) -> (r: Self)
        ensures
            r@ == self@,
    {
        CfhdbUsbProfile {
            codename: self.codename.clone(),
            i18n_desc: self.i18n_desc.clone(),
            icon_name: self.icon_name.clone(),
            license: self.license.clone(),
            class_codes: clone_string_vec(&self.class_codes),
            vendor_ids: clone_string_vec(&self.vendor_ids),
            product_ids: clone_string_vec(&self.product_ids),
            blacklisted_class_codes: clone_string_vec(&self.blacklisted_class_codes),
            blacklisted_vendor_ids: clone_string_vec(&self.blacklisted_vendor_ids),
            blacklisted_product_ids: clone_string_vec(&self.blacklisted_product_ids),
            packages: clone_opt_string_vec(&self.packages),
            check_script: self.check_script.clone(),
            install_script: clone_opt_string(&self.install_script),
            remove_script: clone_opt_string(&self.remove_script),
            experimental: self.experimental,
            removable: self.removable,
            veiled: self.veiled,
            priority: self.priority,
        }
    }
}

/// The USB instance of the shared rule algebra: no blacklist field may hit
/// the device's class, vendor or product identifier, and every whitelist
/// field must.
pub open spec fn usb_profile_matches(
    p: UsbProfileV,
    class_code: Seq<char>,
    vendor_id: Seq<char>,
    product_id: Seq<char>,
) -> bool {
    &&& !list_hits(p.blacklisted_class_codes, class_code)
    &&& !list_hits(p.blacklisted_vendor_ids, vendor_id)
    &&& !list_hits(p.blacklisted_product_ids, product_id)
    &&& list_hits(p.class_codes, class_code)
    &&& list_hits(p.vendor_ids, vendor_id)
    &&& list_hits(p.product_ids, product_id)
}

/// The field triples of one (USB device, profile) pair, in catalog field
/// order: class code, vendor id, product id.
fn usb_rules(
    p: &CfhdbUsbProfile,
    class_code: &String,
    vendor_id: &String,
    product_id: &String,
) -> (rs: Vec<MatchRule>)
    ensures
        rules_match_spec(rs@) == usb_profile_matches(p@, class_code@, vendor_id@, product_id@),
{
    let mut rs: Vec<MatchRule> = Vec::new();
    rs.push(
        MatchRule {
            value: class_code.clone(),
            whitelist: clone_string_vec(&p.class_codes),
            blacklist: clone_string_vec(&p.blacklisted_class_codes),
        },
    );
    rs.push(
        MatchRule {
            value: vendor_id.clone(),
            whitelist: clone_string_vec(&p.vendor_ids),
            blacklist: clone_string_vec(&p.blacklisted_vendor_ids),
        },
    );
    rs.push(
        MatchRule {
            value: product_id.clone(),
            whitelist: clone_string_vec(&p.product_ids),
            blacklist: clone_string_vec(&p.blacklisted_product_ids),
        },
    );
    proof {
        assert(rs@.len() == 3);
        assert(rules_reject(rs@) <==> (rule_rejects(rs@[0]) || rule_rejects(rs@[1])
            || rule_rejects(rs@[2]))) by {
            if rules_reject(rs@) {
                let i = choose|i: int| 0 <= i < rs@.len() && rule_rejects(rs@[i]);
                assert(i == 0 || i == 1 || i == 2);
            }
        }
        assert(rules_permit(rs@) <==> (rule_permits(rs@[0]) && rule_permits(rs@[1])
            && rule_permits(rs@[2]))) by {
            if rule_permits(rs@[0]) && rule_permits(rs@[1]) && rule_permits(rs@[2]) {
                assert forall|i: int| 0 <= i < rs@.len() implies rule_permits(rs@[i]) by {
                    assert(i == 0 || i == 1 || i == 2);
                }
            }
        }
    }
    rs
}

/// The ordered sublist of catalog profiles that apply to a device with the
/// given identifiers; catalog order (ascending priority) is preserved.
pub open spec fn usb_matching(
    ps: Seq<UsbProfileV>,
    class_code: Seq<char>,
    vendor_id: Seq<char>,
    product_id: Seq<char>,
) -> Seq<UsbProfileV> {
    ps.filter(|p: UsbProfileV| usb_profile_matches(p, class_code, vendor_id, product_id))
}

/// The image of one catalog JSON entry under the USB normalization rules:
/// defaulting, locale fallback, list coercion, script sentinel decoding and
/// the wrapping 32-bit priority.
pub open spec fn usb_profile_of_json(j: Json, locale: Seq<char>, license_fallback: Seq<char>) -> UsbProfileV {
    UsbProfileV {
        codename: spec_str_field_or(j, "codename"@, Seq::empty()),
        i18n_desc: spec_desc(j, locale),
        icon_name: spec_str_field_or(j, "icon_name"@, "package-x-generic"@),
        license: spec_str_field_or(j, "license"@, license_fallback),
        class_codes: spec_str_list(j, "class_codes"@),
        vendor_ids: spec_str_list(j, "vendor_ids"@),
        product_ids: spec_str_list(j, "product_ids"@),
        blacklisted_class_codes: spec_str_list(j, "blacklisted_class_codes"@),
        blacklisted_vendor_ids: spec_str_list(j, "blacklisted_vendor_ids"@),
        blacklisted_product_ids: spec_str_list(j, "blacklisted_product_ids"@),
        packages: match spec_packages(j) {
            Some(p) => p,
            None => None,
        },
        check_script: spec_str_field_or(j, "check_script"@, "false"@),
        install_script: spec_script(j, "install_script"@),
        remove_script: spec_script(j, "remove_script"@),
        experimental: spec_bool_field(j, "experimental"@),
        removable: spec_bool_field(j, "removable"@),
        veiled: spec_bool_field(j, "veiled"@),
        priority: (spec_int_field(j, "priority"@) as i32) as int,
    }
}

/// Parses one catalog entry, failing only on a corrupt `packages` shape.
fn parse_usb_profile(j: &Json, locale: &str, license_fallback: &str) -> (r: Result<
    CfhdbUsbProfile,
    CfhdbError,
>)
    ensures
        match r {
            Ok(p) => spec_packages(*j) is Some && p@ == usb_profile_of_json(
                *j,
                locale@,
                license_fallback@,
            ),
            Err(e) => spec_packages(*j) is None && e == CfhdbError::CatalogCorrupt,
        },
{
    let packages = match j.packages_field() {
        Ok(p) => p,
        Err(e) => {
            return Err(e);
        },
    };
    Ok(
        CfhdbUsbProfile {
            codename: j.str_field_or_empty("codename"),
            i18n_desc: j.desc_field(locale),
            icon_name: j.str_field_or("icon_name", "package-x-generic"),
            license: j.str_field_or("license", license_fallback),
            class_codes: j.str_list_field("class_codes"),
            vendor_ids: j.str_list_field("vendor_ids"),
            product_ids: j.str_list_field("product_ids"),
            blacklisted_class_codes: j.str_list_field("blacklisted_class_codes"),
            blacklisted_vendor_ids: j.str_list_field("blacklisted_vendor_ids"),
            blacklisted_product_ids: j.str_list_field("blacklisted_product_ids"),
            packages,
            check_script: j.str_field_or("check_script", "false"),
            install_script: j.script_field("install_script"),
            remove_script: j.script_field("remove_script"),
            experimental: j.bool_field("experimental"),
            removable: j.bool_field("removable"),
            veiled: j.bool_field("veiled"),
            priority: truncate_i64_to_i32(j.int_field("priority")),
        },
    )
}

/// The USB catalog built from the entries of the `profiles` array: each
/// parsed entry stable-inserted ascending by priority, so that the catalog
/// is kept sorted after every append and ties keep insertion order.
pub open spec fn usb_catalog_of(items: Seq<Json>, locale: Seq<char>, license_fallback: Seq<char>) -> Seq<
    UsbProfileV,
>
    decreases items.len(),
{
    if items.len() == 0 {
        Seq::empty()
    } else {
        stable_insert(
            usb_catalog_of(items.drop_last(), locale, license_fallback),
            usb_profile_of_json(items.last(), locale, license_fallback),
            |p: UsbProfileV| p.priority,
        )
    }
}

proof fn lemma_usb_insert_view(s: Seq<CfhdbUsbProfile>, p: CfhdbUsbProfile)
    ensures
        stable_insert(s, p, |t: CfhdbUsbProfile| t.priority_spec()).map_values(
            |t: CfhdbUsbProfile| t@,
        ) == stable_insert(
            s.map_values(|t: CfhdbUsbProfile| t@),
            p@,
            |v: UsbProfileV| v.priority,
        ),
    decreases s.len(),
{
    let keyt = |t: CfhdbUsbProfile| t.priority_spec();
    let keyv = |v: UsbProfileV| v.priority;
    let vw = |t: CfhdbUsbProfile| t@;
    let sv = s.map_values(vw);
    if s.len() == 0 {
        assert(stable_insert(s, p, keyt).map_values(vw) =~= stable_insert(sv, p@, keyv));
    } else {
        lemma_usb_insert_view(s.drop_first(), p);
        assert(sv[0] == s[0]@);
        assert(s.drop_first().map_values(vw) =~= sv.drop_first());
        if keyt(s[0]) <= keyt(p) {
            assert(stable_insert(s, p, keyt).map_values(vw) =~= seq![s[0]@] + stable_insert(
                s.drop_first(),
                p,
                keyt,
            ).map_values(vw));
            assert(stable_insert(sv, p@, keyv) == seq![sv[0]] + stable_insert(
                sv.drop_first(),
                p@,
                keyv,
            ));
        } else {
            assert(stable_insert(s, p, keyt).map_values(vw) =~= seq![p@] + sv);
        }
    }
}

/// Normalizes a catalog document into the ordered USB profile list.  A
/// document without a `profiles` array yields an empty catalog; one corrupt
/// `packages` shape aborts the whole parse.
pub fn parse_usb_profiles(doc: &Json, locale: &str, license_fallback: &str) -> (r: Result<
    Vec<CfhdbUsbProfile>,
    CfhdbError,
>)
    ensures
        match spec_profiles_array(*doc) {
            None => r matches Ok(cat) && cat.deep_view() == Seq::<UsbProfileV>::empty(),
            Some(items) => if all_packages_ok(items) {
                r matches Ok(cat) && cat.deep_view() == usb_catalog_of(
                    items,
                    locale@,
                    license_fallback@,
                )
            } else {
                r == Err::<Vec<CfhdbUsbProfile>, CfhdbError>(CfhdbError::CatalogCorrupt)
            },
        },
{
    match doc.profiles_array() {
        None => {
            let cat: Vec<CfhdbUsbProfile> = Vec::new();
            proof {
                assert(cat.deep_view() =~= Seq::<UsbProfileV>::empty());
            }
            Ok(cat)
        },
        Some(items) => {
            let ghost vw = |t: CfhdbUsbProfile| t@;
            let mut cat: Vec<CfhdbUsbProfile> = Vec::new();
            proof {
                assert(items@.take(0) =~= Seq::<Json>::empty());
                assert(cat@.map_values(vw) =~= Seq::<UsbProfileV>::empty());
            }
            let mut k: usize = 0;
            while k < items.len()
                invariant
                    0 <= k <= items.len(),
                    forall|m: int| 0 <= m < k ==> #[trigger] spec_packages(items@[m]) is Some,
                    cat@.map_values(vw) == usb_catalog_of(
                        items@.take(k as int),
                        locale@,
                        license_fallback@,
                    ),
                decreases items.len() - k,
            {
                let p = match parse_usb_profile(&items[k], locale, license_fallback) {
                    Ok(p) => p,
                    Err(e) => {
                        return Err(e);
                    },
                };
                let ghost cat0 = cat@;
                insert_by_priority(&mut cat, p);
                proof {
                    lemma_usb_insert_view(cat0, p);
                    assert(items@.take(k + 1).drop_last() =~= items@.take(k as int));
                    assert(items@.take(k + 1).last() == items@[k as int]);
                }
                k += 1;
            }
            proof {
                assert(items@.take(items@.len() as int) =~= items@);
                assert(cat.deep_view() =~= cat@.map_values(vw));
            }
            Ok(cat)
        },
    }
}

/// The outcome of normalizing one catalog text for the USB domain.
pub open spec fn usb_text_outcome(text: Seq<char>, locale: Seq<char>, license_fallback: Seq<char>) -> Result<
    Seq<UsbProfileV>,
    CfhdbError,
> {
    match json_of(text) {
        None => Err(CfhdbError::CatalogCorrupt),
        Some(doc) => match spec_profiles_array(doc) {
            None => Ok(Seq::empty()),
            Some(items) => if all_packages_ok(items) {
                Ok(usb_catalog_of(items, locale, license_fallback))
            } else {
                Err(CfhdbError::CatalogCorrupt)
            },
        },
    }
}

/// The outcome of the whole fetch-fallback-parse pipeline for the USB
/// domain: a fetched body wins, else the cache text, else the fetch is
/// unavailable.
pub open spec fn usb_sources_outcome(
    fetched: Option<Seq<char>>,
    cached: Option<Seq<char>>,
    locale: Seq<char>,
    license_fallback: Seq<char>,
) -> Result<Seq<UsbProfileV>, CfhdbError> {
    match fetched {
        Some(t) => usb_text_outcome(t, locale, license_fallback),
        None => match cached {
            Some(t) => usb_text_outcome(t, locale, license_fallback),
            None => Err(CfhdbError::FetchUnavailable),
        },
    }
}

/// Cache fallback for the USB domain: with no fetched body the cached text
/// alone decides the catalog, and with neither source the fetch is
/// unavailable.
pub proof fn lemma_usb_cache_fallback(cached: Seq<char>, locale: Seq<char>, license_fallback: Seq<char>)
    ensures
        usb_sources_outcome(None, Some(cached), locale, license_fallback) == usb_text_outcome(
            cached,
            locale,
            license_fallback,
        ),
        usb_sources_outcome(None, None, locale, license_fallback) == Err::<
            Seq<UsbProfileV>,
            CfhdbError,
        >(CfhdbError::FetchUnavailable),
{
}

/// Resolves the USB catalog from an attempted fetch and the cache contents.
///
/// The caller hands in the body of a successful fetch (if any) and the
/// cache file's contents (if any); persisting a fresh body back to the
/// cache is the caller's side of the contract.
pub fn usb_profiles_from_sources(
    fetched: Option<String>,
    cached: Option<String>,
    locale: &str,
    license_fallback: &str,
) -> (r: Result<Vec<CfhdbUsbProfile>, CfhdbError>)
    ensures
        match r {
            Ok(cat) => usb_sources_outcome(
                fetched.deep_view(),
                cached.deep_view(),
                locale@,
                license_fallback@,
            ) == Ok::<Seq<UsbProfileV>, CfhdbError>(cat.deep_view()),
            Err(e) => usb_sources_outcome(
                fetched.deep_view(),
                cached.deep_view(),
                locale@,
                license_fallback@,
            ) == Err::<Seq<UsbProfileV>, CfhdbError>(e),
        },
{
    let chosen = match resolve_catalog_source(fetched, cached) {
        Ok(x) => x.0,
        Err(e) => {
            return Err(e);
        },
    };
    let doc = match parse_json(chosen.as_str()) {
        Some(d) => d,
        None => {
            return Err(CfhdbError::CatalogCorrupt);
        },
    };
    let r = parse_usb_profiles(&doc, locale, license_fallback);
    proof {
        assert(json_of(chosen@) == Some(doc));
    }
    r
}

impl CfhdbUsbProfile {
    /// Selects the first catalog profile carrying the given codename.
    pub fn get_profile_from_codename(codename: &str, profiles: Vec<CfhdbUsbProfile>) -> (r: Result<
        Self,
        CfhdbError,
    >)
        ensures
            match r {
                Ok(p) => exists|i: int|
                    0 <= i < profiles@.len() && p == profiles@[i]
                        && #[trigger] profiles@[i]@.codename == codename@
                        && forall|j: int| 0 <= j < i ==> profiles@[j]@.codename != codename@,
                Err(e) => e == CfhdbError::ProfileNotFound && forall|j: int|
                    0 <= j < profiles@.len() ==> profiles@[j]@.codename != codename@,
            },
    {
        find_by_codename(codename, profiles)
    }

    /// Runs the profile's check script through the shell: true exactly when
    /// it exited 0.  The value depends on the machine's state.
    pub fn get_status(&self) -> bool {
        run_status_check(&self.check_script)
    }

    /// Drives installation: a no-op when the profile already reports
    /// installed, otherwise one shell invocation of the combined
    /// package-manager step and install fragment.
    pub fn install(&self, pkg_install_cmd: &Option<String>) -> (r: Result<ExecOutcome, CfhdbError>)
        ensures
            r matches Err(e) ==> e == CfhdbError::ExecutionFailure,
    {
        let installed = self.get_status();
        let plan = plan_action(installed, pkg_install_cmd, &self.install_script);
        execute_plan(plan)
    }

    /// Drives removal: a no-op when the profile already reports not
    /// installed, otherwise one shell invocation of the combined
    /// package-manager step and remove fragment.
    pub fn uninstall(&self, pkg_remove_cmd: &Option<String>) -> (r: Result<ExecOutcome, CfhdbError>)
        ensures
            r matches Err(e) ==> e == CfhdbError::ExecutionFailure,
    {
        let installed = self.get_status();
        let plan = plan_action(!installed, pkg_remove_cmd, &self.remove_script);
        execute_plan(plan)
    }
}

/// A blacklist hit on any field of a profile keeps it out of the available
/// list of a device with the given identifiers, whatever its whitelist
/// fields say.
pub proof fn lemma_usb_blacklist_excludes(
    ps: Seq<UsbProfileV>,
    p: UsbProfileV,
    class_code: Seq<char>,
    vendor_id: Seq<char>,
    product_id: Seq<char>,
)
    requires
        list_hits(p.blacklisted_class_codes, class_code) || list_hits(
            p.blacklisted_vendor_ids,
            vendor_id,
        ) || list_hits(p.blacklisted_product_ids, product_id),
    ensures
        !usb_matching(ps, class_code, vendor_id, product_id).contains(p),
{
    lemma_filter_membership(
        ps,
        |q: UsbProfileV| usb_profile_matches(q, class_code, vendor_id, product_id),
        p,
    );
}

/// A profile stands in the available list exactly when it stands in the
/// catalog, no blacklist field hits and every whitelist field hits.
pub proof fn lemma_usb_available_iff(
    ps: Seq<UsbProfileV>,
    p: UsbProfileV,
    class_code: Seq<char>,
    vendor_id: Seq<char>,
    product_id: Seq<char>,
)
    ensures
        usb_matching(ps, class_code, vendor_id, product_id).contains(p) <==> (ps.contains(p)
            && usb_profile_matches(p, class_code, vendor_id, product_id)),
{
    lemma_filter_membership(
        ps,
        |q: UsbProfileV| usb_profile_matches(q, class_code, vendor_id, product_id),
        p,
    );
}

/// An ascending catalog yields an ascending available list: matching keeps
/// the catalog's relative order.
pub proof fn lemma_usb_available_sorted(
    ps: Seq<UsbProfileV>,
    class_code: Seq<char>,
    vendor_id: Seq<char>,
    product_id: Seq<char>,
)
    requires
        sorted_by(ps, |q: UsbProfileV| q.priority),
    ensures
        sorted_by(
            usb_matching(ps, class_code, vendor_id, product_id),
            |q: UsbProfileV| q.priority,
        ),
{
    lemma_filter_keeps_sorted(
        ps,
        |q: UsbProfileV| usb_profile_matches(q, class_code, vendor_id, product_id),
        |q: UsbProfileV| q.priority,
    );
}

/// The available list keeps the catalog's relative order: any two of its
/// elements stand at catalog positions in the same order, so ties by
/// priority keep their catalog order too.
pub proof fn lemma_usb_available_keeps_relative_order(
    ps: Seq<UsbProfileV>,
    class_code: Seq<char>,
    vendor_id: Seq<char>,
    product_id: Seq<char>,
)
    ensures
        forall|m1: int, m2: int|
            #![trigger pair_in_order(usb_matching(ps, class_code, vendor_id, product_id), ps, m1, m2)]
            0 <= m1 < m2 < usb_matching(ps, class_code, vendor_id, product_id).len()
                ==> pair_in_order(
                usb_matching(ps, class_code, vendor_id, product_id),
                ps,
                m1,
                m2,
            ),
{
    lemma_filter_keeps_relative_order(
        ps,
        |q: UsbProfileV| usb_profile_matches(q, class_code, vendor_id, product_id),
    );
}

/// The parsed USB catalog is ascending by priority after every append.
pub proof fn lemma_usb_catalog_sorted(items: Seq<Json>, locale: Seq<char>, license_fallback: Seq<char>)
    ensures
        sorted_by(usb_catalog_of(items, locale, license_fallback), |p: UsbProfileV| p.priority),
    decreases items.len(),
{
    if items.len() > 0 {
        lemma_usb_catalog_sorted(items.drop_last(), locale, license_fallback);
        crate::catalog::lemma_stable_insert_sorted(
            usb_catalog_of(items.drop_last(), locale, license_fallback),
            usb_profile_of_json(items.last(), locale, license_fallback),
            |p: UsbProfileV| p.priority,
        );
    }
}

/// The mathematical image of a USB device snapshot.
pub ghost struct UsbDeviceV {
    pub manufacturer_string_index: Seq<char>,
    pub product_string_index: Seq<char>,
    pub serial_number_string_index: Seq<char>,
    pub protocol_code: Seq<char>,
    pub class_code: Seq<char>,
    pub vendor_id: Seq<char>,
    pub product_id: Seq<char>,
    pub usb_version: Seq<char>,
    pub bus_number: u8,
    pub port_number: u8,
    pub address: u8,
    pub sysfs_busid: Seq<char>,
    pub kernel_driver: Seq<char>,
    pub started: Option<bool>,
    pub enabled: bool,
    pub speed: Seq<char>,
    pub available_profiles: Option<Seq<UsbProfileV>>,
}

/// The device's matching-profile slot: unset until a matching pass writes
/// it, and left unset by a pass that matches nothing, so consumers must
/// treat "unset" as "no profiles".
pub struct ProfileWrapper(pub Option<Vec<CfhdbUsbProfile>>);

impl View for ProfileWrapper {
    type V = Option<Seq<UsbProfileV>>;

    open spec fn view(&self) -> Option<Seq<UsbProfileV>> {
        self.0.deep_view()
    }
}

/// A read-only snapshot of one USB device's identification and lifecycle
/// attributes, plus the matching-profile slot.
pub struct CfhdbUsbDevice {
    pub manufacturer_string_index: String,
    pub product_string_index: String,
    pub serial_number_string_index: String,
    pub protocol_code: String,
    pub class_code: String,
    pub vendor_id: String,
    pub product_id: String,
    pub usb_version: String,
    pub bus_number: u8,
    pub port_number: u8,
    pub address: u8,
    pub sysfs_busid: String,
    pub kernel_driver: String,
    pub started: Option<bool>,
    pub enabled: bool,
    pub speed: String,
    pub available_profiles: ProfileWrapper,
}

impl View for CfhdbUsbDevice {
    type V = UsbDeviceV;

    open spec fn view(&self) -> UsbDeviceV {
        UsbDeviceV {
            manufacturer_string_index: self.manufacturer_string_index@,
            product_string_index: self.product_string_index@,
            serial_number_string_index: self.serial_number_string_index@,
            protocol_code: self.protocol_code@,
            class_code: self.class_code@,
            vendor_id: self.vendor_id@,
            product_id: self.product_id@,
            usb_version: self.usb_version@,
            bus_number: self.bus_number,
            port_number: self.port_number,
            address: self.address,
            sysfs_busid: self.sysfs_busid@,
            kernel_driver: self.kernel_driver@,
            started: self.started,
            enabled: self.enabled,
            speed: self.speed@,
            available_profiles: self.available_profiles@,
        }
    }
}

impl DeepView for CfhdbUsbDevice {
    type V = UsbDeviceV;

    open spec fn deep_view(&self) -> UsbDeviceV {
        self.view()
    }
}

/// The class codes of a grouped device list, one per entry.
pub open spec fn group_keys(r: Seq<(String, Vec<CfhdbUsbDevice>)>) -> Seq<Seq<char>> {
    r.map_values(|e: (String, Vec<CfhdbUsbDevice>)| e.0@)
}

/// Whether a device view carries the given class code.
pub open spec fn usb_class_pred(class_code: Seq<char>) -> spec_fn(UsbDeviceV) -> bool {
    |dv: UsbDeviceV| dv.class_code == class_code
}

/// Copies of a profile list with the same deep view.
fn duplicate_usb_profiles(v: &Vec<CfhdbUsbProfile>) -> (r: Vec<CfhdbUsbProfile>)
    ensures
        r.deep_view() == v.deep_view(),
{
    let mut out: Vec<CfhdbUsbProfile> = Vec::new();
    let mut i: usize = 0;
    while i < v.len()
        invariant
            0 <= i <= v.len(),
            out@.len() == i,
            forall|j: int| 0 <= j < i ==> #[trigger] out@[j]@ == v@[j]@,
        decreases v.len() - i,
    {
        out.push(v[i].duplicate());
        i += 1;
    }
    proof {
        assert(out.deep_view() =~= v.deep_view());
    }
    out
}

/// The distinct class codes of the devices, in first-occurrence order.
fn collect_class_keys(devices: &Vec<CfhdbUsbDevice>) -> (keys: Vec<String>)
    ensures
        forall|a: int, b: int| 0 <= a < b < keys@.len() ==> keys@[a]@ != keys@[b]@,
        forall|k: int| #![trigger devices@[k]]
            0 <= k < devices@.len() ==> keys.deep_view().contains(devices@[k]@.class_code),
{
    let mut keys: Vec<String> = Vec::new();
    let mut i: usize = 0;
    while i < devices.len()
        invariant
            0 <= i <= devices.len(),
            forall|a: int, b: int| 0 <= a < b < keys@.len() ==> keys@[a]@ != keys@[b]@,
            forall|k: int| #![trigger devices@[k]]
                0 <= k < i ==> keys.deep_view().contains(devices@[k]@.class_code),
        decreases devices.len() - i,
    {
        let ghost cls = devices@[i as int]@.class_code;
        let hit = crate::strutil::list_has(&keys, devices[i].class_code.as_str());
        if !hit {
            proof {
                assert forall|a: int| 0 <= a < keys@.len() implies keys@[a]@ != cls by {
                    assert(keys.deep_view()[a] == keys@[a]@);
                }
            }
            let ghost k0 = keys@;
            let ghost k0dv = keys.deep_view();
            keys.push(devices[i].class_code.clone());
            proof {
                assert(forall|a: int| 0 <= a < k0.len() ==> keys@[a] == k0[a]);
                assert(keys@[k0.len() as int]@ == cls);
                assert(keys.deep_view() =~= k0dv.push(cls));
                assert forall|k: int| #![trigger devices@[k]] 0 <= k < i + 1 implies
                    keys.deep_view().contains(devices@[k]@.class_code) by {
                    if k < i {
                        let idx = choose|idx: int|
                            0 <= idx < k0dv.len() && k0dv[idx] == devices@[k]@.class_code;
                        assert(keys.deep_view()[idx] == devices@[k]@.class_code);
                    } else {
                        assert(keys.deep_view()[k0.len() as int] == devices@[k]@.class_code);
                    }
                }
            }
        }
        i += 1;
    }
    keys
}

/// The ordered restriction of the devices to one class code, as copies.
fn collect_class_group(devices: &Vec<CfhdbUsbDevice>, key: &String) -> (grp: Vec<CfhdbUsbDevice>)
    ensures
        grp.deep_view() == devices.deep_view().filter(usb_class_pred(key@)),
{
    let ghost pred = usb_class_pred(key@);
    let mut grp: Vec<CfhdbUsbDevice> = Vec::new();
    proof {
        reveal(Seq::filter);
        assert(devices.deep_view().take(0) =~= Seq::<UsbDeviceV>::empty());
        assert(grp.deep_view() =~= devices.deep_view().take(0).filter(pred));
    }
    let mut j: usize = 0;
    while j < devices.len()
        invariant
            0 <= j <= devices.len(),
            grp.deep_view() == devices.deep_view().take(j as int).filter(pred),
        decreases devices.len() - j,
    {
        let ghost m0 = grp.deep_view();
        let hit = str_eq(devices[j].class_code.as_str(), key.as_str());
        if hit {
            grp.push(devices[j].duplicate());
        }
        proof {
            reveal(Seq::filter);
            let dvs = devices.deep_view();
            assert(dvs.take(j + 1).drop_last() =~= dvs.take(j as int));
            assert(dvs.take(j + 1).last() == dvs[j as int]);
            assert(dvs[j as int] == devices@[j as int]@);
            assert(pred(dvs[j as int]) == hit);
            if hit {
                assert(grp.deep_view() =~= m0.push(dvs[j as int]));
            }
        }
        j += 1;
    }
    proof {
        assert(devices.deep_view().take(devices@.len() as int) =~= devices.deep_view());
    }
    grp
}

fn index_of_busid(devices: &Vec<CfhdbUsbDevice>, busid: &str) -> (r: Option<usize>)
    ensures
        match r {
            Some(i) => i < devices@.len() && devices@[i as int]@.sysfs_busid == busid@
                && forall|j: int| 0 <= j < i ==> devices@[j]@.sysfs_busid != busid@,
            None => forall|j: int| 0 <= j < devices@.len()
                ==> devices@[j]@.sysfs_busid != busid@,
        },
{
    let mut i: usize = 0;
    while i < devices.len()
        invariant
            0 <= i <= devices.len(),
            forall|j: int| 0 <= j < i ==> devices@[j]@.sysfs_busid != busid@,
        decreases devices.len() - i,
    {
        if str_eq(devices[i].sysfs_busid.as_str(), busid) {
            return Some(i);
        }
        i += 1;
    }
    None
}

impl CfhdbUsbDevice {
    /// Computes the ordered matching-profile list of a device against a
    /// catalog, and writes the device's slot only when the list is
    /// non-empty: a device that matches nothing keeps its previous slot
    /// value.
    pub fn set_available_profiles(profile_data: &[CfhdbUsbProfile], device: &mut Self)
        ensures
            ({
                let matched = usb_matching(
                    profile_data.deep_view(),
                    old(device)@.class_code,
                    old(device)@.vendor_id,
                    old(device)@.product_id,
                );
                final(device)@ == (UsbDeviceV {
                    available_profiles: if matched.len() > 0 {
                        Some(matched)
                    } else {
                        old(device)@.available_profiles
                    },
                    ..old(device)@
                })
            }),
    {
        let ghost dv0 = device@;
        let ghost dvs = profile_data.deep_view();
        let ghost pred = |q: UsbProfileV|
            usb_profile_matches(q, dv0.class_code, dv0.vendor_id, dv0.product_id);
        let mut matched: Vec<CfhdbUsbProfile> = Vec::new();
        proof {
            reveal(Seq::filter);
            assert(dvs.take(0) =~= Seq::<UsbProfileV>::empty());
            assert(matched.deep_view() =~= dvs.take(0).filter(pred));
        }
        let mut i: usize = 0;
        while i < profile_data.len()
            invariant
                0 <= i <= profile_data.len(),
                matched.deep_view() == dvs.take(i as int).filter(pred),
            decreases profile_data.len() - i,
        {
            let p = vstd::slice::slice_index_get(profile_data, i);
            let rs = usb_rules(p, &device.class_code, &device.vendor_id, &device.product_id);
            let ghost m0 = matched.deep_view();
            let is_match = rules_match(&rs);
            if is_match {
                matched.push(p.duplicate());
            }
            proof {
                reveal(Seq::filter);
                assert(dvs.take(i + 1).drop_last() =~= dvs.take(i as int));
                assert(dvs.take(i + 1).last() == dvs[i as int]);
                assert(dvs[i as int] == profile_data@[i as int]@);
                assert(pred(dvs[i as int]) == is_match);
                if is_match {
                    assert(matched.deep_view() =~= m0.push(dvs[i as int]));
                } else {
                    assert(matched.deep_view() == m0);
                }
            }
            i += 1;
        }
        proof {
            assert(dvs.take(profile_data@.len() as int) =~= dvs);
        }
        if matched.len() > 0 {
            proof {
                assert(matched.deep_view().len() > 0);
            }
            device.available_profiles = ProfileWrapper(Some(matched));
        } else {
            proof {
                assert(usb_matching(dvs, dv0.class_code, dv0.vendor_id, dv0.product_id).len()
                    == 0);
            }
        }
    }

    /// A copy of the device snapshot with the same mathematical image.
    pub fn duplicate(&self) -> (r: Self)
        ensures
            r@ == self@,
    {
        CfhdbUsbDevice {
            manufacturer_string_index: self.manufacturer_string_index.clone(),
            product_string_index: self.product_string_index.clone(),
            serial_number_string_index: self.serial_number_string_index.clone(),
            protocol_code: self.protocol_code.clone(),
            class_code: self.class_code.clone(),
            vendor_id: self.vendor_id.clone(),
            product_id: self.product_id.clone(),
            usb_version: self.usb_version.clone(),
            bus_number: self.bus_number,
            port_number: self.port_number,
            address: self.address,
            sysfs_busid: self.sysfs_busid.clone(),
            kernel_driver: self.kernel_driver.clone(),
            started: self.started,
            enabled: self.enabled,
            speed: self.speed.clone(),
            available_profiles: ProfileWrapper(
                match &self.available_profiles.0 {
                    Some(v) => Some(duplicate_usb_profiles(v)),
                    None => None,
                },
            ),
        }
    }

    /// Groups devices by class code: one entry per distinct class, carrying
    /// the devices of that class in enumeration order.
    pub fn create_class_hashmap(devices: Vec<CfhdbUsbDevice>) -> (r: Vec<
        (String, Vec<CfhdbUsbDevice>),
    >)
        ensures
            forall|a: int, b: int| 0 <= a < b < r@.len() ==> r@[a].0@ != r@[b].0@,
            forall|k: int| #![trigger devices@[k]]
                0 <= k < devices@.len() ==> group_keys(r@).contains(devices@[k]@.class_code),
            forall|a: int|
                0 <= a < r@.len() ==> #[trigger] r@[a].1.deep_view() == devices.deep_view().filter(
                    usb_class_pred(r@[a].0@),
                ),
    {
        let keys = collect_class_keys(&devices);
        let mut r: Vec<(String, Vec<CfhdbUsbDevice>)> = Vec::new();
        let mut g: usize = 0;
        while g < keys.len()
            invariant
                0 <= g <= keys.len(),
                r@.len() == g,
                forall|a: int| 0 <= a < g ==> #[trigger] r@[a].0@ == keys@[a]@,
                forall|a: int|
                    0 <= a < g ==> #[trigger] r@[a].1.deep_view() == devices.deep_view().filter(
                        usb_class_pred(r@[a].0@),
                    ),
            decreases keys.len() - g,
        {
            let key = keys[g].clone();
            let grp = collect_class_group(&devices, &key);
            r.push((key, grp));
            g += 1;
        }
        proof {
            assert(group_keys(r@) =~= keys.deep_view());
        }
        r
    }

    /// Selects the first enumerated device carrying the given sysfs bus id.
    pub fn get_device_from_busid(busid: &str, devices: Vec<CfhdbUsbDevice>) -> (r: Result<
        CfhdbUsbDevice,
        CfhdbError,
    >)
        ensures
            match r {
                Ok(d) => exists|i: int|
                    0 <= i < devices@.len() && d == devices@[i]
                        && #[trigger] devices@[i]@.sysfs_busid == busid@
                        && forall|j: int| 0 <= j < i ==> devices@[j]@.sysfs_busid != busid@,
                Err(e) => e == CfhdbError::DeviceNotFound && forall|j: int|
                    0 <= j < devices@.len() ==> devices@[j]@.sysfs_busid != busid@,
            },
    {
        match index_of_busid(&devices, busid) {
            Some(i) => {
                let mut v = devices;
                let d = v.remove(i);
                proof {
                    assert(d == devices@[i as int]);
                }
                Ok(d)
            },
            None => Err(CfhdbError::DeviceNotFound),
        }
    }
}

} // verus!
