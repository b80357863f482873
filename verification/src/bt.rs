use vstd::prelude::*;

use crate::catalog::{
    find_by_codename, insert_by_priority, lemma_filter_keeps_relative_order,
    lemma_filter_keeps_sorted, lemma_filter_membership, pair_in_order, sorted_by, stable_insert,
    CatalogEntry,
};
use crate::errors::CfhdbError;
use crate::executor::{execute_plan, plan_action, run_status_check, ExecOutcome};
use crate::fetch::resolve_catalog_source;
use crate::json::{
    all_packages_ok, json_of, parse_json, spec_bool_field, spec_desc, spec_int_field,
    spec_packages, spec_profiles_array, spec_script, spec_str_field_or, spec_str_list, Json,
};
use crate::matching::{
    list_hits, rule_permits, rule_rejects, rules_match, rules_match_spec, rules_permit,
    rules_reject, MatchRule,
};
use crate::strutil::{
    clone_opt_string, clone_opt_string_vec, clone_string_vec, str_eq, truncate_i64_to_i32,
};

verus! {

/// The mathematical image of a Bluetooth profile record.
pub ghost struct BtProfileV {
    pub codename: Seq<char>,
    pub i18n_desc: Seq<char>,
    pub icon_name: Seq<char>,
    pub license: Seq<char>,
    pub class_ids: Seq<Seq<char>>,
    pub bt_names: Seq<Seq<char>>,
    pub modalias_vendor_ids: Seq<Seq<char>>,
    pub modalias_device_ids: Seq<Seq<char>>,
    pub modalias_product_ids: Seq<Seq<char>>,
    pub blacklisted_class_ids: Seq<Seq<char>>,
    pub blacklisted_bt_names: Seq<Seq<char>>,
    pub blacklisted_modalias_vendor_ids: Seq<Seq<char>>,
    pub blacklisted_modalias_device_ids: Seq<Seq<char>>,
    pub blacklisted_modalias_product_ids: Seq<Seq<char>>,
    pub packages: Option<Seq<Seq<char>>>,
    pub check_script: Seq<char>,
    pub install_script: Option<Seq<char>>,
    pub remove_script: Option<Seq<char>>,
    pub experimental: bool,
    pub removable: bool,
    pub veiled: bool,
    pub priority: int,
}

/// A declarative catalog entry for the Bluetooth domain: which devices it
/// applies to (whitelist and blacklist field lists over class id, device
/// name and the three modalias components) and how to install, remove and
/// status-check the associated software.
pub struct CfhdbBtProfile {
    pub codename: String,
    pub i18n_desc: String,
    pub icon_name: String,
    pub license: String,
    pub class_ids: Vec<String>,
    pub bt_names: Vec<String>,
    pub modalias_vendor_ids: Vec<String>,
    pub modalias_device_ids: Vec<String>,
    pub modalias_product_ids: Vec<String>,
    pub blacklisted_class_ids: Vec<String>,
    pub blacklisted_bt_names: Vec<String>,
    pub blacklisted_modalias_vendor_ids: Vec<String>,
    pub blacklisted_modalias_device_ids: Vec<String>,
    pub blacklisted_modalias_product_ids: Vec<String>,
    pub packages: Option<Vec<String>>,
    pub check_script: String,
    pub install_script: Option<String>,
    pub remove_script: Option<String>,
    pub experimental: bool,
    pub removable: bool,
    pub veiled: bool,
    pub priority: i32,
}

impl View for CfhdbBtProfile {
    type V = BtProfileV;

    open spec fn view(&self) -> BtProfileV {
        BtProfileV {
            codename: self.codename@,
            i18n_desc: self.i18n_desc@,
            icon_name: self.icon_name@,
            license: self.license@,
            class_ids: self.class_ids.deep_view(),
            bt_names: self.bt_names.deep_view(),
            modalias_vendor_ids: self.modalias_vendor_ids.deep_view(),
            modalias_device_ids: self.modalias_device_ids.deep_view(),
            modalias_product_ids: self.modalias_product_ids.deep_view(),
            blacklisted_class_ids: self.blacklisted_class_ids.deep_view(),
            blacklisted_bt_names: self.blacklisted_bt_names.deep_view(),
            blacklisted_modalias_vendor_ids: self.blacklisted_modalias_vendor_ids.deep_view(),
            blacklisted_modalias_device_ids: self.blacklisted_modalias_device_ids.deep_view(),
            blacklisted_modalias_product_ids: self.blacklisted_modalias_product_ids.deep_view(),
            packages: self.packages.deep_view(),
            check_script: self.check_script@,
            install_script: self.install_script.deep_view(),
            remove_script: self.remove_script.deep_view(),
            experimental: self.experimental,
            removable: self.removable,
            veiled: self.veiled,
            priority: self.priority as int,
        }
    }
}

impl DeepView for CfhdbBtProfile {
    type V = BtProfileV;

    open spec fn deep_view(&self) -> BtProfileV {
        self.view()
    }
}

impl CatalogEntry for CfhdbBtProfile {
    open spec fn priority_spec(&self) -> int {
        self@.priority
    }

    open spec fn codename_spec(&self) -> Seq<char> {
        self@.codename
    }

    fn priority_value(&self) -> (r: i32) {
        self.priority
    }

    fn codename_is(&self, name: &str) -> (r: bool) {
        str_eq(self.codename.as_str(), name)
    }
}

impl CfhdbBtProfile {
    /// A copy of the record with the same mathematical image.
    pub fn duplicate(&self) -> (r: Self)
        ensures
            r@ == self@,
    {
        CfhdbBtProfile {
            codename: self.codename.clone(),
            i18n_desc: self.i18n_desc.clone(),
            icon_name: self.icon_name.clone(),
            license: self.license.clone(),
            class_ids: clone_string_vec(&self.class_ids),
            bt_names: clone_string_vec(&self.bt_names),
            modalias_vendor_ids: clone_string_vec(&self.modalias_vendor_ids),
            modalias_device_ids: clone_string_vec(&self.modalias_device_ids),
            modalias_product_ids: clone_string_vec(&self.modalias_product_ids),
            blacklisted_class_ids: clone_string_vec(&self.blacklisted_class_ids),
            blacklisted_bt_names: clone_string_vec(&self.blacklisted_bt_names),
            blacklisted_modalias_vendor_ids: clone_string_vec(
                &self.blacklisted_modalias_vendor_ids,
            ),
            blacklisted_modalias_device_ids: clone_string_vec(
                &self.blacklisted_modalias_device_ids,
            ),
            blacklisted_modalias_product_ids: clone_string_vec(
                &self.blacklisted_modalias_product_ids,
            ),
            packages: clone_opt_string_vec(&self.packages),
            check_script: self.check_script.clone(),
            install_script: clone_opt_string(&self.install_script),
            remove_script: clone_opt_string(&self.remove_script),
            experimental: self.experimental,
            removable: self.removable,
            veiled: self.veiled,
            priority: self.priority,
        }
    }
}

/// The Bluetooth instance of the shared rule algebra over the five
/// identification fields: class id, device name and the three modalias
/// components.
pub open spec fn bt_profile_matches(
    p: BtProfileV,
    class_id: Seq<char>,
    name: Seq<char>,
    modalias_vendor_id: Seq<char>,
    modalias_device_id: Seq<char>,
    modalias_product_id: Seq<char>,
) -> bool {
    &&& !list_hits(p.blacklisted_class_ids, class_id)
    &&& !list_hits(p.blacklisted_bt_names, name)
    &&& !list_hits(p.blacklisted_modalias_vendor_ids, modalias_vendor_id)
    &&& !list_hits(p.blacklisted_modalias_device_ids, modalias_device_id)
    &&& !list_hits(p.blacklisted_modalias_product_ids, modalias_product_id)
    &&& list_hits(p.class_ids, class_id)
    &&& list_hits(p.bt_names, name)
    &&& list_hits(p.modalias_vendor_ids, modalias_vendor_id)
    &&& list_hits(p.modalias_device_ids, modalias_device_id)
    &&& list_hits(p.modalias_product_ids, modalias_product_id)
}

/// The field triples of one (Bluetooth device, profile) pair.
fn bt_rules(
    p: &CfhdbBtProfile,
    class_id: &String,
    name: &String,
    modalias_vendor_id: &String,
    modalias_device_id: &String,
    modalias_product_id: &String,
) -> (rs: Vec<MatchRule>)
    ensures
        rules_match_spec(rs@) == bt_profile_matches(
            p@,
            class_id@,
            name@,
            modalias_vendor_id@,
            modalias_device_id@,
            modalias_product_id@,
        ),
{
    let mut rs: Vec<MatchRule> = Vec::new();
    rs.push(
        MatchRule {
            value: class_id.clone(),
            whitelist: clone_string_vec(&p.class_ids),
            blacklist: clone_string_vec(&p.blacklisted_class_ids),
        },
    );
    rs.push(
        MatchRule {
            value: name.clone(),
            whitelist: clone_string_vec(&p.bt_names),
            blacklist: clone_string_vec(&p.blacklisted_bt_names),
        },
    );
    rs.push(
        MatchRule {
            value: modalias_vendor_id.clone(),
            whitelist: clone_string_vec(&p.modalias_vendor_ids),
            blacklist: clone_string_vec(&p.blacklisted_modalias_vendor_ids),
        },
    );
    rs.push(
        MatchRule {
            value: modalias_device_id.clone(),
            whitelist: clone_string_vec(&p.modalias_device_ids),
            blacklist: clone_string_vec(&p.blacklisted_modalias_device_ids),
        },
    );
    rs.push(
        MatchRule {
            value: modalias_product_id.clone(),
            whitelist: clone_string_vec(&p.modalias_product_ids),
            blacklist: clone_string_vec(&p.blacklisted_modalias_product_ids),
        },
    );
    proof {
        assert(rs@.len() == 5);
        assert(rules_reject(rs@) <==> (rule_rejects(rs@[0]) || rule_rejects(rs@[1])
            || rule_rejects(rs@[2]) || rule_rejects(rs@[3]) || rule_rejects(rs@[4]))) by {
            if rules_reject(rs@) {
                let i = choose|i: int| 0 <= i < rs@.len() && rule_rejects(rs@[i]);
                assert(i == 0 || i == 1 || i == 2 || i == 3 || i == 4);
            }
        }
        assert(rules_permit(rs@) <==> (rule_permits(rs@[0]) && rule_permits(rs@[1])
            && rule_permits(rs@[2]) && rule_permits(rs@[3]) && rule_permits(rs@[4]))) by {
            if rule_permits(rs@[0]) && rule_permits(rs@[1]) && rule_permits(rs@[2])
                && rule_permits(rs@[3]) && rule_permits(rs@[4]) {
                assert forall|i: int| 0 <= i < rs@.len() implies rule_permits(rs@[i]) by {
                    assert(i == 0 || i == 1 || i == 2 || i == 3 || i == 4);
                }
            }
        }
    }
    rs
}

/// The ordered sublist of catalog profiles that apply to a device with the
/// given identifiers; catalog order (ascending priority) is preserved.
pub open spec fn bt_matching(
    ps: Seq<BtProfileV>,
    class_id: Seq<char>,
    name: Seq<char>,
    modalias_vendor_id: Seq<char>,
    modalias_device_id: Seq<char>,
    modalias_product_id: Seq<char>,
) -> Seq<BtProfileV> {
    ps.filter(
        |p: BtProfileV|
            bt_profile_matches(
                p,
                class_id,
                name,
                modalias_vendor_id,
                modalias_device_id,
                modalias_product_id,
            ),
    )
}

/// The image of one catalog JSON entry under the Bluetooth normalization
/// rules.
pub open spec fn bt_profile_of_json(j: Json, locale: Seq<char>, license_fallback: Seq<char>) -> BtProfileV {
    BtProfileV {
        codename: spec_str_field_or(j, "codename"@, Seq::empty()),
        i18n_desc: spec_desc(j, locale),
        icon_name: spec_str_field_or(j, "icon_name"@, "package-x-generic"@),
        license: spec_str_field_or(j, "license"@, license_fallback),
        class_ids: spec_str_list(j, "class_ids"@),
        bt_names: spec_str_list(j, "bt_names"@),
        modalias_vendor_ids: spec_str_list(j, "modalias_vendor_ids"@),
        modalias_device_ids: spec_str_list(j, "modalias_device_ids"@),
        modalias_product_ids: spec_str_list(j, "modalias_product_ids"@),
        blacklisted_class_ids: spec_str_list(j, "blacklisted_class_ids"@),
        blacklisted_bt_names: spec_str_list(j, "blacklisted_bt_names"@),
        blacklisted_modalias_vendor_ids: spec_str_list(j, "blacklisted_modalias_vendor_ids"@),
        blacklisted_modalias_device_ids: spec_str_list(j, "blacklisted_modalias_device_ids"@),
        blacklisted_modalias_product_ids: spec_str_list(j, "blacklisted_modalias_product_ids"@),
        packages: match spec_packages(j) {
            Some(p) => p,
            None => None,
        },
        check_script: spec_str_field_or(j, "check_script"@, "false"@),
        install_script: spec_script(j, "install_script"@),
        remove_script: spec_script(j, "remove_script"@),
        experimental: spec_bool_field(j, "experimental"@),
        removable: spec_bool_field(j, "removable"@),
        veiled: spec_bool_field(j, "veiled"@),
        priority: (spec_int_field(j, "priority"@) as i32) as int,
    }
}

/// Parses one catalog entry, failing only on a corrupt `packages` shape.
fn parse_bt_profile(j: &Json, locale: &str, license_fallback: &str) -> (r: Result<
    CfhdbBtProfile,
    CfhdbError,
>)
    ensures
        match r {
            Ok(p) => spec_packages(*j) is Some && p@ == bt_profile_of_json(
                *j,
                locale@,
                license_fallback@,
            ),
            Err(e) => spec_packages(*j) is None && e == CfhdbError::CatalogCorrupt,
        },
{
    let packages = match j.packages_field() {
        Ok(p) => p,
        Err(e) => {
            return Err(e);
        },
    };
    Ok(
        CfhdbBtProfile {
            codename: j.str_field_or_empty("codename"),
            i18n_desc: j.desc_field(locale),
            icon_name: j.str_field_or("icon_name", "package-x-generic"),
            license: j.str_field_or("license", license_fallback),
            class_ids: j.str_list_field("class_ids"),
            bt_names: j.str_list_field("bt_names"),
            modalias_vendor_ids: j.str_list_field("modalias_vendor_ids"),
            modalias_device_ids: j.str_list_field("modalias_device_ids"),
            modalias_product_ids: j.str_list_field("modalias_product_ids"),
            blacklisted_class_ids: j.str_list_field("blacklisted_class_ids"),
            blacklisted_bt_names: j.str_list_field("blacklisted_bt_names"),
            blacklisted_modalias_vendor_ids: j.str_list_field("blacklisted_modalias_vendor_ids"),
            blacklisted_modalias_device_ids: j.str_list_field("blacklisted_modalias_device_ids"),
            blacklisted_modalias_product_ids: j.str_list_field(
                "blacklisted_modalias_product_ids",
            ),
            packages,
            check_script: j.str_field_or("check_script", "false"),
            install_script: j.script_field("install_script"),
            remove_script: j.script_field("remove_script"),
            experimental: j.bool_field("experimental"),
            removable: j.bool_field("removable"),
            veiled: j.bool_field("veiled"),
            priority: truncate_i64_to_i32(j.int_field("priority")),
        },
    )
}

/// The Bluetooth catalog built from the entries of the `profiles` array:
/// each parsed entry stable-inserted ascending by priority.
pub open spec fn bt_catalog_of(items: Seq<Json>, locale: Seq<char>, license_fallback: Seq<char>) -> Seq<
    BtProfileV,
>
    decreases items.len(),
{
    if items.len() == 0 {
        Seq::empty()
    } else {
        stable_insert(
            bt_catalog_of(items.drop_last(), locale, license_fallback),
            bt_profile_of_json(items.last(), locale, license_fallback),
            |p: BtProfileV| p.priority,
        )
    }
}

proof fn lemma_bt_insert_view(s: Seq<CfhdbBtProfile>, p: CfhdbBtProfile)
    ensures
        stable_insert(s, p, |t: CfhdbBtProfile| t.priority_spec()).map_values(
            |t: CfhdbBtProfile| t@,
        ) == stable_insert(s.map_values(|t: CfhdbBtProfile| t@), p@, |v: BtProfileV| v.priority),
    decreases s.len(),
{
    let keyt = |t: CfhdbBtProfile| t.priority_spec();
    let keyv = |v: BtProfileV| v.priority;
    let vw = |t: CfhdbBtProfile| t@;
    let sv = s.map_values(vw);
    if s.len() == 0 {
        assert(stable_insert(s, p, keyt).map_values(vw) =~= stable_insert(sv, p@, keyv));
    } else {
        lemma_bt_insert_view(s.drop_first(), p);
        assert(sv[0] == s[0]@);
        assert(s.drop_first().map_values(vw) =~= sv.drop_first());
        if keyt(s[0]) <= keyt(p) {
            assert(stable_insert(s, p, keyt).map_values(vw) =~= seq![s[0]@] + stable_insert(
                s.drop_first(),
                p,
                keyt,
            ).map_values(vw));
            assert(stable_insert(sv, p@, keyv) == seq![sv[0]] + stable_insert(
                sv.drop_first(),
                p@,
                keyv,
            ));
        } else {
            assert(stable_insert(s, p, keyt).map_values(vw) =~= seq![p@] + sv);
        }
    }
}

/// Normalizes a catalog document into the ordered Bluetooth profile list.
pub fn parse_bt_profiles(doc: &Json, locale: &str, license_fallback: &str) -> (r: Result<
    Vec<CfhdbBtProfile>,
    CfhdbError,
>)
    ensures
        match spec_profiles_array(*doc) {
            None => r matches Ok(cat) && cat.deep_view() == Seq::<BtProfileV>::empty(),
            Some(items) => if all_packages_ok(items) {
                r matches Ok(cat) && cat.deep_view() == bt_catalog_of(
                    items,
                    locale@,
                    license_fallback@,
                )
            } else {
                r == Err::<Vec<CfhdbBtProfile>, CfhdbError>(CfhdbError::CatalogCorrupt)
            },
        },
{
    match doc.profiles_array() {
        None => {
            let cat: Vec<CfhdbBtProfile> = Vec::new();
            proof {
                assert(cat.deep_view() =~= Seq::<BtProfileV>::empty());
            }
            Ok(cat)
        },
        Some(items) => {
            let ghost vw = |t: CfhdbBtProfile| t@;
            let mut cat: Vec<CfhdbBtProfile> = Vec::new();
            proof {
                assert(items@.take(0) =~= Seq::<Json>::empty());
                assert(cat@.map_values(vw) =~= Seq::<BtProfileV>::empty());
            }
            let mut k: usize = 0;
            while k < items.len()
                invariant
                    0 <= k <= items.len(),
                    forall|m: int| 0 <= m < k ==> #[trigger] spec_packages(items@[m]) is Some,
                    cat@.map_values(vw) == bt_catalog_of(
                        items@.take(k as int),
                        locale@,
                        license_fallback@,
                    ),
                decreases items.len() - k,
            {
                let p = match parse_bt_profile(&items[k], locale, license_fallback) {
                    Ok(p) => p,
                    Err(e) => {
                        return Err(e);
                    },
                };
                let ghost cat0 = cat@;
                insert_by_priority(&mut cat, p);
                proof {
                    lemma_bt_insert_view(cat0, p);
                    assert(items@.take(k + 1).drop_last() =~= items@.take(k as int));
                    assert(items@.take(k + 1).last() == items@[k as int]);
                }
                k += 1;
            }
            proof {
                assert(items@.take(items@.len() as int) =~= items@);
                assert(cat.deep_view() =~= cat@.map_values(vw));
            }
            Ok(cat)
        },
    }
}

/// The outcome of normalizing one catalog text for the Bluetooth domain.
pub open spec fn bt_text_outcome(text: Seq<char>, locale: Seq<char>, license_fallback: Seq<char>) -> Result<
    Seq<BtProfileV>,
    CfhdbError,
> {
    match json_of(text) {
        None => Err(CfhdbError::CatalogCorrupt),
        Some(doc) => match spec_profiles_array(doc) {
            None => Ok(Seq::empty()),
            Some(items) => if all_packages_ok(items) {
                Ok(bt_catalog_of(items, locale, license_fallback))
            } else {
                Err(CfhdbError::CatalogCorrupt)
            },
        },
    }
}

/// The outcome of the whole fetch-fallback-parse pipeline for the Bluetooth
/// domain.
pub open spec fn bt_sources_outcome(
    fetched: Option<Seq<char>>,
    cached: Option<Seq<char>>,
    locale: Seq<char>,
    license_fallback: Seq<char>,
) -> Result<Seq<BtProfileV>, CfhdbError> {
    match fetched {
        Some(t) => bt_text_outcome(t, locale, license_fallback),
        None => match cached {
            Some(t) => bt_text_outcome(t, locale, license_fallback),
            None => Err(CfhdbError::FetchUnavailable),
        },
    }
}

/// Cache fallback for the Bluetooth domain.
pub proof fn lemma_bt_cache_fallback(cached: Seq<char>, locale: Seq<char>, license_fallback: Seq<char>)
    ensures
        bt_sources_outcome(None, Some(cached), locale, license_fallback) == bt_text_outcome(
            cached,
            locale,
            license_fallback,
        ),
        bt_sources_outcome(None, None, locale, license_fallback) == Err::<
            Seq<BtProfileV>,
            CfhdbError,
        >(CfhdbError::FetchUnavailable),
{
}

/// Resolves the Bluetooth catalog from an attempted fetch and the cache
/// contents.
pub fn bt_profiles_from_sources(
    fetched: Option<String>,
    cached: Option<String>,
    locale: &str,
    license_fallback: &str,
) -> (r: Result<Vec<CfhdbBtProfile>, CfhdbError>)
    ensures
        match r {
            Ok(cat) => bt_sources_outcome(
                fetched.deep_view(),
                cached.deep_view(),
                locale@,
                license_fallback@,
            ) == Ok::<Seq<BtProfileV>, CfhdbError>(cat.deep_view()),
            Err(e) => bt_sources_outcome(
                fetched.deep_view(),
                cached.deep_view(),
                locale@,
                license_fallback@,
            ) == Err::<Seq<BtProfileV>, CfhdbError>(e),
        },
{
    let chosen = match resolve_catalog_source(fetched, cached) {
        Ok(x) => x.0,
        Err(e) => {
            return Err(e);
        },
    };
    let doc = match parse_json(chosen.as_str()) {
        Some(d) => d,
        None => {
            return Err(CfhdbError::CatalogCorrupt);
        },
    };
    let r = parse_bt_profiles(&doc, locale, license_fallback);
    proof {
        assert(json_of(chosen@) == Some(doc));
    }
    r
}

impl CfhdbBtProfile {
    /// Selects the first catalog profile carrying the given codename.
    pub fn get_profile_from_codename(codename: &str, profiles: Vec<CfhdbBtProfile>) -> (r: Result<
        Self,
        CfhdbError,
    >)
        ensures
            match r {
                Ok(p) => exists|i: int|
                    0 <= i < profiles@.len() && p == profiles@[i]
                        && #[trigger] profiles@[i]@.codename == codename@
                        && forall|j: int| 0 <= j < i ==> profiles@[j]@.codename != codename@,
                Err(e) => e == CfhdbError::ProfileNotFound && forall|j: int|
                    0 <= j < profiles@.len() ==> profiles@[j]@.codename != codename@,
            },
    {
        find_by_codename(codename, profiles)
    }

    /// Runs the profile's check script through the shell: true exactly when
    /// it exited 0.  The value depends on the machine's state.
    pub fn get_status(&self) -> bool {
        run_status_check(&self.check_script)
    }

    /// Drives installation: a no-op when the profile already reports
    /// installed, otherwise one shell invocation of the combined
    /// package-manager step and install fragment.
    pub fn install(&self, pkg_install_cmd: &Option<String>) -> (r: Result<ExecOutcome, CfhdbError>)
        ensures
            r matches Err(e) ==> e == CfhdbError::ExecutionFailure,
    {
        let installed = self.get_status();
        let plan = plan_action(installed, pkg_install_cmd, &self.install_script);
        execute_plan(plan)
    }

    /// Drives removal: a no-op when the profile already reports not
    /// installed, otherwise one shell invocation of the combined
    /// package-manager step and remove fragment.
    pub fn uninstall(&self, pkg_remove_cmd: &Option<String>) -> (r: Result<ExecOutcome, CfhdbError>)
        ensures
            r matches Err(e) ==> e == CfhdbError::ExecutionFailure,
    {
        let installed = self.get_status();
        let plan = plan_action(!installed, pkg_remove_cmd, &self.remove_script);
        execute_plan(plan)
    }
}

/// The mathematical image of a Bluetooth device snapshot.
pub ghost struct BtDeviceV {
    pub alias: Seq<char>,
    pub name: Seq<char>,
    pub class_id: Seq<char>,
    pub modalias_vendor_id: Seq<char>,
    pub modalias_product_id: Seq<char>,
    pub modalias_device_id: Seq<char>,
    pub adapter: Seq<char>,
    pub paired: bool,
    pub connected: bool,
    pub trusted: bool,
    pub blocked: bool,
    pub address: Seq<char>,
    pub battery_level: u8,
    pub available_profiles: Option<Seq<BtProfileV>>,
}

/// The device's matching-profile slot: unset until a matching pass writes
/// it, and left unset by a pass that matches nothing, so consumers must
/// treat "unset" as "no profiles".
pub struct ProfileWrapper(pub Option<Vec<CfhdbBtProfile>>);

impl View for ProfileWrapper {
    type V = Option<Seq<BtProfileV>>;

    open spec fn view(&self) -> Option<Seq<BtProfileV>> {
        self.0.deep_view()
    }
}

/// A read-only snapshot of one Bluetooth device's identification and
/// lifecycle attributes, plus the matching-profile slot.  The handle used
/// for pairing, connecting, trusting and blocking lives with the adapter
/// layer and is keyed by the `address` field.
pub struct CfhdbBtDevice {
    pub alias: String,
    pub name: String,
    pub class_id: String,
    pub modalias_vendor_id: String,
    pub modalias_product_id: String,
    pub modalias_device_id: String,
    pub adapter: String,
    pub paired: bool,
    pub connected: bool,
    pub trusted: bool,
    pub blocked: bool,
    pub address: String,
    pub battery_level: u8,
    pub available_profiles: ProfileWrapper,
}

impl View for CfhdbBtDevice {
    type V = BtDeviceV;

    open spec fn view(&self) -> BtDeviceV {
        BtDeviceV {
            alias: self.alias@,
            name: self.name@,
            class_id: self.class_id@,
            modalias_vendor_id: self.modalias_vendor_id@,
            modalias_product_id: self.modalias_product_id@,
            modalias_device_id: self.modalias_device_id@,
            adapter: self.adapter@,
            paired: self.paired,
            connected: self.connected,
            trusted: self.trusted,
            blocked: self.blocked,
            address: self.address@,
            battery_level: self.battery_level,
            available_profiles: self.available_profiles@,
        }
    }
}

impl DeepView for CfhdbBtDevice {
    type V = BtDeviceV;

    open spec fn deep_view(&self) -> BtDeviceV {
        self.view()
    }
}

/// The class ids of a grouped device list, one per entry.
pub open spec fn group_keys(r: Seq<(String, Vec<CfhdbBtDevice>)>) -> Seq<Seq<char>> {
    r.map_values(|e: (String, Vec<CfhdbBtDevice>)| e.0@)
}

/// Whether a device view carries the given class id.
pub open spec fn bt_class_pred(class_id: Seq<char>) -> spec_fn(BtDeviceV) -> bool {
    |dv: BtDeviceV| dv.class_id == class_id
}

/// Copies of a profile list with the same deep view.
fn duplicate_bt_profiles(v: &Vec<CfhdbBtProfile>) -> (r: Vec<CfhdbBtProfile>)
    ensures
        r.deep_view() == v.deep_view(),
{
    let mut out: Vec<CfhdbBtProfile> = Vec::new();
    let mut i: usize = 0;
    while i < v.len()
        invariant
            0 <= i <= v.len(),
            out@.len() == i,
            forall|j: int| 0 <= j < i ==> #[trigger] out@[j]@ == v@[j]@,
        decreases v.len() - i,
    {
        out.push(v[i].duplicate());
        i += 1;
    }
    proof {
        assert(out.deep_view() =~= v.deep_view());
    }
    out
}

/// The distinct class ids of the devices, in first-occurrence order.
fn collect_class_keys(devices: &Vec<CfhdbBtDevice>) -> (keys: Vec<String>)
    ensures
        forall|a: int, b: int| 0 <= a < b < keys@.len() ==> keys@[a]@ != keys@[b]@,
        forall|k: int| #![trigger devices@[k]]
            0 <= k < devices@.len() ==> keys.deep_view().contains(devices@[k]@.class_id),
{
    let mut keys: Vec<String> = Vec::new();
    let mut i: usize = 0;
    while i < devices.len()
        invariant
            0 <= i <= devices.len(),
            forall|a: int, b: int| 0 <= a < b < keys@.len() ==> keys@[a]@ != keys@[b]@,
            forall|k: int| #![trigger devices@[k]]
                0 <= k < i ==> keys.deep_view().contains(devices@[k]@.class_id),
        decreases devices.len() - i,
    {
        let ghost cls = devices@[i as int]@.class_id;
        let hit = crate::strutil::list_has(&keys, devices[i].class_id.as_str());
        if !hit {
            proof {
                assert forall|a: int| 0 <= a < keys@.len() implies keys@[a]@ != cls by {
                    assert(keys.deep_view()[a] == keys@[a]@);
                }
            }
            let ghost k0 = keys@;
            let ghost k0dv = keys.deep_view();
            keys.push(devices[i].class_id.clone());
            proof {
                assert(forall|a: int| 0 <= a < k0.len() ==> keys@[a] == k0[a]);
                assert(keys@[k0.len() as int]@ == cls);
                assert(keys.deep_view() =~= k0dv.push(cls));
                assert forall|k: int| #![trigger devices@[k]] 0 <= k < i + 1 implies
                    keys.deep_view().contains(devices@[k]@.class_id) by {
                    if k < i {
                        let idx = choose|idx: int|
                            0 <= idx < k0dv.len() && k0dv[idx] == devices@[k]@.class_id;
                        assert(keys.deep_view()[idx] == devices@[k]@.class_id);
                    } else {
                        assert(keys.deep_view()[k0.len() as int] == devices@[k]@.class_id);
                    }
                }
            }
        }
        i += 1;
    }
    keys
}

/// The ordered restriction of the devices to one class id, as copies.
fn collect_class_group(devices: &Vec<CfhdbBtDevice>, key: &String) -> (grp: Vec<CfhdbBtDevice>)
    ensures
        grp.deep_view() == devices.deep_view().filter(bt_class_pred(key@)),
{
    let ghost pred = bt_class_pred(key@);
    let mut grp: Vec<CfhdbBtDevice> = Vec::new();
    proof {
        reveal(Seq::filter);
        assert(devices.deep_view().take(0) =~= Seq::<BtDeviceV>::empty());
        assert(grp.deep_view() =~= devices.deep_view().take(0).filter(pred));
    }
    let mut j: usize = 0;
    while j < devices.len()
        invariant
            0 <= j <= devices.len(),
            grp.deep_view() == devices.deep_view().take(j as int).filter(pred),
        decreases devices.len() - j,
    {
        let ghost m0 = grp.deep_view();
        let hit = str_eq(devices[j].class_id.as_str(), key.as_str());
        if hit {
            grp.push(devices[j].duplicate());
        }
        proof {
            reveal(Seq::filter);
            let dvs = devices.deep_view();
            assert(dvs.take(j + 1).drop_last() =~= dvs.take(j as int));
            assert(dvs.take(j + 1).last() == dvs[j as int]);
            assert(dvs[j as int] == devices@[j as int]@);
            assert(pred(dvs[j as int]) == hit);
            if hit {
                assert(grp.deep_view() =~= m0.push(dvs[j as int]));
            }
        }
        j += 1;
    }
    proof {
        assert(devices.deep_view().take(devices@.len() as int) =~= devices.deep_view());
    }
    grp
}

fn index_of_address(devices: &Vec<CfhdbBtDevice>, address: &str) -> (r: Option<usize>)
    ensures
        match r {
            Some(i) => i < devices@.len() && devices@[i as int]@.address == address@
                && forall|j: int| 0 <= j < i ==> devices@[j]@.address != address@,
            None => forall|j: int| 0 <= j < devices@.len() ==> devices@[j]@.address != address@,
        },
{
    let mut i: usize = 0;
    while i < devices.len()
        invariant
            0 <= i <= devices.len(),
            forall|j: int| 0 <= j < i ==> devices@[j]@.address != address@,
        decreases devices.len() - i,
    {
        if str_eq(devices[i].address.as_str(), address) {
            return Some(i);
        }
        i += 1;
    }
    None
}

/// The uppercase hexadecimal image of one value below 16.
pub open spec fn hex_char(n: int) -> char {
    if n == 0 { '0' }
    else if n == 1 { '1' }
    else if n == 2 { '2' }
    else if n == 3 { '3' }
    else if n == 4 { '4' }
    else if n == 5 { '5' }
    else if n == 6 { '6' }
    else if n == 7 { '7' }
    else if n == 8 { '8' }
    else if n == 9 { '9' }
    else if n == 10 { 'A' }
    else if n == 11 { 'B' }
    else if n == 12 { 'C' }
    else if n == 13 { 'D' }
    else if n == 14 { 'E' }
    else { 'F' }
}

/// The two uppercase hexadecimal digits of one byte.
pub open spec fn byte_hex(b: u8) -> Seq<char> {
    seq![hex_char(b as int / 16), hex_char(b as int % 16)]
}

/// A six-byte Bluetooth address rendered as colon-separated uppercase
/// hexadecimal byte pairs.
pub open spec fn bt_address_str(b: Seq<u8>) -> Seq<char>
    recommends
        b.len() == 6,
{
    byte_hex(b[0]) + seq![':'] + byte_hex(b[1]) + seq![':'] + byte_hex(b[2]) + seq![':']
        + byte_hex(b[3]) + seq![':'] + byte_hex(b[4]) + seq![':'] + byte_hex(b[5])
}

fn hex_char_str(n: u8) -> (r: &'static str)
    requires
        n < 16,
    ensures
        r@ =~= seq![hex_char(n as int)],
{
    proof {
        reveal_strlit("0");
        reveal_strlit("1");
        reveal_strlit("2");
        reveal_strlit("3");
        reveal_strlit("4");
        reveal_strlit("5");
        reveal_strlit("6");
        reveal_strlit("7");
        reveal_strlit("8");
        reveal_strlit("9");
        reveal_strlit("A");
        reveal_strlit("B");
        reveal_strlit("C");
        reveal_strlit("D");
        reveal_strlit("E");
        reveal_strlit("F");
    }
    match n {
        0 => "0",
        1 => "1",
        2 => "2",
        3 => "3",
        4 => "4",
        5 => "5",
        6 => "6",
        7 => "7",
        8 => "8",
        9 => "9",
        10 => "A",
        11 => "B",
        12 => "C",
        13 => "D",
        14 => "E",
        _ => "F",
    }
}

/// Appends the two hexadecimal digits of one byte.
fn append_byte_hex(s: &mut String, b: u8)
    ensures
        final(s)@ == old(s)@ + byte_hex(b),
{
    s.append(hex_char_str(b / 16));
    s.append(hex_char_str(b % 16));
    proof {
        assert(final(s)@ =~= old(s)@ + byte_hex(b));
    }
}

/// Renders a six-byte Bluetooth address as colon-separated uppercase
/// hexadecimal byte pairs.
pub fn format_bt_address(bytes: &[u8; 6]) -> (r: String)
    ensures
        r@ == bt_address_str(bytes@),
{
    let mut s = String::new();
    append_byte_hex(&mut s, bytes[0]);
    s.append(":");
    append_byte_hex(&mut s, bytes[1]);
    s.append(":");
    append_byte_hex(&mut s, bytes[2]);
    s.append(":");
    append_byte_hex(&mut s, bytes[3]);
    s.append(":");
    append_byte_hex(&mut s, bytes[4]);
    s.append(":");
    append_byte_hex(&mut s, bytes[5]);
    proof {
        reveal_strlit(":");
        assert(s@ =~= bt_address_str(bytes@));
    }
    s
}

impl CfhdbBtDevice {
    /// Computes the ordered matching-profile list of a device against a
    /// catalog, and writes the device's slot only when the list is
    /// non-empty: a device that matches nothing keeps its previous slot
    /// value.
    pub fn set_available_profiles(profile_data: &[CfhdbBtProfile], device: &mut Self)
        ensures
            ({
                let matched = bt_matching(
                    profile_data.deep_view(),
                    old(device)@.class_id,
                    old(device)@.name,
                    old(device)@.modalias_vendor_id,
                    old(device)@.modalias_device_id,
                    old(device)@.modalias_product_id,
                );
                final(device)@ == (BtDeviceV {
                    available_profiles: if matched.len() > 0 {
                        Some(matched)
                    } else {
                        old(device)@.available_profiles
                    },
                    ..old(device)@
                })
            }),
    {
        let ghost dv0 = device@;
        let ghost dvs = profile_data.deep_view();
        let ghost pred = |q: BtProfileV|
            bt_profile_matches(
                q,
                dv0.class_id,
                dv0.name,
                dv0.modalias_vendor_id,
                dv0.modalias_device_id,
                dv0.modalias_product_id,
            );
        let mut matched: Vec<CfhdbBtProfile> = Vec::new();
        proof {
            reveal(Seq::filter);
            assert(dvs.take(0) =~= Seq::<BtProfileV>::empty());
            assert(matched.deep_view() =~= dvs.take(0).filter(pred));
        }
        let mut i: usize = 0;
        while i < profile_data.len()
            invariant
                0 <= i <= profile_data.len(),
                matched.deep_view() == dvs.take(i as int).filter(pred),
            decreases profile_data.len() - i,
        {
            let p = vstd::slice::slice_index_get(profile_data, i);
            let rs = bt_rules(
                p,
                &device.class_id,
                &device.name,
                &device.modalias_vendor_id,
                &device.modalias_device_id,
                &device.modalias_product_id,
            );
            let ghost m0 = matched.deep_view();
            let is_match = rules_match(&rs);
            if is_match {
                matched.push(p.duplicate());
            }
            proof {
                reveal(Seq::filter);
                assert(dvs.take(i + 1).drop_last() =~= dvs.take(i as int));
                assert(dvs.take(i + 1).last() == dvs[i as int]);
                assert(dvs[i as int] == profile_data@[i as int]@);
                assert(pred(dvs[i as int]) == is_match);
                if is_match {
                    assert(matched.deep_view() =~= m0.push(dvs[i as int]));
                } else {
                    assert(matched.deep_view() == m0);
                }
            }
            i += 1;
        }
        proof {
            assert(dvs.take(profile_data@.len() as int) =~= dvs);
        }
        if matched.len() > 0 {
            proof {
                assert(matched.deep_view().len() > 0);
            }
            device.available_profiles = ProfileWrapper(Some(matched));
        } else {
            proof {
                assert(bt_matching(
                    dvs,
                    dv0.class_id,
                    dv0.name,
                    dv0.modalias_vendor_id,
                    dv0.modalias_device_id,
                    dv0.modalias_product_id,
                ).len() == 0);
            }
        }
    }

    /// A copy of the device snapshot with the same mathematical image.
    pub fn duplicate(&self) -> (r: Self)
        ensures
            r@ == self@,
    {
        CfhdbBtDevice {
            alias: self.alias.clone(),
            name: self.name.clone(),
            class_id: self.class_id.clone(),
            modalias_vendor_id: self.modalias_vendor_id.clone(),
            modalias_product_id: self.modalias_product_id.clone(),
            modalias_device_id: self.modalias_device_id.clone(),
            adapter: self.adapter.clone(),
            paired: self.paired,
            connected: self.connected,
            trusted: self.trusted,
            blocked: self.blocked,
            address: self.address.clone(),
            battery_level: self.battery_level,
            available_profiles: ProfileWrapper(
                match &self.available_profiles.0 {
                    Some(v) => Some(duplicate_bt_profiles(v)),
                    None => None,
                },
            ),
        }
    }

    /// Groups devices by class id: one entry per distinct class, carrying
    /// the devices of that class in enumeration order.
    pub fn create_class_hashmap(devices: Vec<CfhdbBtDevice>) -> (r: Vec<
        (String, Vec<CfhdbBtDevice>),
    >)
        ensures
            forall|a: int, b: int| 0 <= a < b < r@.len() ==> r@[a].0@ != r@[b].0@,
            forall|k: int| #![trigger devices@[k]]
                0 <= k < devices@.len() ==> group_keys(r@).contains(devices@[k]@.class_id),
            forall|a: int|
                0 <= a < r@.len() ==> #[trigger] r@[a].1.deep_view() == devices.deep_view().filter(
                    bt_class_pred(r@[a].0@),
                ),
    {
        let keys = collect_class_keys(&devices);
        let mut r: Vec<(String, Vec<CfhdbBtDevice>)> = Vec::new();
        let mut g: usize = 0;
        while g < keys.len()
            invariant
                0 <= g <= keys.len(),
                r@.len() == g,
                forall|a: int| 0 <= a < g ==> #[trigger] r@[a].0@ == keys@[a]@,
                forall|a: int|
                    0 <= a < g ==> #[trigger] r@[a].1.deep_view() == devices.deep_view().filter(
                        bt_class_pred(r@[a].0@),
                    ),
            decreases keys.len() - g,
        {
            let key = keys[g].clone();
            let grp = collect_class_group(&devices, &key);
            r.push((key, grp));
            g += 1;
        }
        proof {
            assert(group_keys(r@) =~= keys.deep_view());
        }
        r
    }

    /// Selects the first enumerated device carrying the given address.
    pub fn get_device_from_address(address: &str, devices: Vec<CfhdbBtDevice>) -> (r: Result<
        CfhdbBtDevice,
        CfhdbError,
    >)
        ensures
            match r {
                Ok(d) => exists|i: int|
                    0 <= i < devices@.len() && d == devices@[i]
                        && #[trigger] devices@[i]@.address == address@
                        && forall|j: int| 0 <= j < i ==> devices@[j]@.address != address@,
                Err(e) => e == CfhdbError::DeviceNotFound && forall|j: int|
                    0 <= j < devices@.len() ==> devices@[j]@.address != address@,
            },
    {
        match index_of_address(&devices, address) {
            Some(i) => {
                let mut v = devices;
                let d = v.remove(i);
                proof {
                    assert(d == devices@[i as int]);
                }
                Ok(d)
            },
            None => Err(CfhdbError::DeviceNotFound),
        }
    }
}

/// A blacklist hit on any field of a profile keeps it out of the available
/// list of a device with the given identifiers, whatever its whitelist
/// fields say.
pub proof fn lemma_bt_blacklist_excludes(
    ps: Seq<BtProfileV>,
    p: BtProfileV,
    class_id: Seq<char>,
    name: Seq<char>,
    modalias_vendor_id: Seq<char>,
    modalias_device_id: Seq<char>,
    modalias_product_id: Seq<char>,
)
    requires
        list_hits(p.blacklisted_class_ids, class_id) || list_hits(p.blacklisted_bt_names, name)
            || list_hits(p.blacklisted_modalias_vendor_ids, modalias_vendor_id) || list_hits(
            p.blacklisted_modalias_device_ids,
            modalias_device_id,
        ) || list_hits(p.blacklisted_modalias_product_ids, modalias_product_id),
    ensures
        !bt_matching(
            ps,
            class_id,
            name,
            modalias_vendor_id,
            modalias_device_id,
            modalias_product_id,
        ).contains(p),
{
    lemma_filter_membership(
        ps,
        |q: BtProfileV|
            bt_profile_matches(
                q,
                class_id,
                name,
                modalias_vendor_id,
                modalias_device_id,
                modalias_product_id,
            ),
        p,
    );
}

/// A profile stands in the available list exactly when it stands in the
/// catalog, no blacklist field hits and every whitelist field hits.
pub proof fn lemma_bt_available_iff(
    ps: Seq<BtProfileV>,
    p: BtProfileV,
    class_id: Seq<char>,
    name: Seq<char>,
    modalias_vendor_id: Seq<char>,
    modalias_device_id: Seq<char>,
    modalias_product_id: Seq<char>,
)
    ensures
        bt_matching(
            ps,
            class_id,
            name,
            modalias_vendor_id,
            modalias_device_id,
            modalias_product_id,
        ).contains(p) <==> (ps.contains(p) && bt_profile_matches(
            p,
            class_id,
            name,
            modalias_vendor_id,
            modalias_device_id,
            modalias_product_id,
        )),
{
    lemma_filter_membership(
        ps,
        |q: BtProfileV|
            bt_profile_matches(
                q,
                class_id,
                name,
                modalias_vendor_id,
                modalias_device_id,
                modalias_product_id,
            ),
        p,
    );
}

/// An ascending catalog yields an ascending available list.
pub proof fn lemma_bt_available_sorted(
    ps: Seq<BtProfileV>,
    class_id: Seq<char>,
    name: Seq<char>,
    modalias_vendor_id: Seq<char>,
    modalias_device_id: Seq<char>,
    modalias_product_id: Seq<char>,
)
    requires
        sorted_by(ps, |q: BtProfileV| q.priority),
    ensures
        sorted_by(
            bt_matching(
                ps,
                class_id,
                name,
                modalias_vendor_id,
                modalias_device_id,
                modalias_product_id,
            ),
            |q: BtProfileV| q.priority,
        ),
{
    lemma_filter_keeps_sorted(
        ps,
        |q: BtProfileV|
            bt_profile_matches(
                q,
                class_id,
                name,
                modalias_vendor_id,
                modalias_device_id,
                modalias_product_id,
            ),
        |q: BtProfileV| q.priority,
    );
}

/// The available list keeps the catalog's relative order: any two of its
/// elements stand at catalog positions in the same order, so ties by
/// priority keep their catalog order too.
pub proof fn lemma_bt_available_keeps_relative_order(
    ps: Seq<BtProfileV>,
    class_id: Seq<char>,
    name: Seq<char>,
    modalias_vendor_id: Seq<char>,
    modalias_device_id: Seq<char>,
    modalias_product_id: Seq<char>,
)
    ensures
        ({
            let avail = bt_matching(
                ps,
                class_id,
                name,
                modalias_vendor_id,
                modalias_device_id,
                modalias_product_id,
            );
            forall|m1: int, m2: int|
                #![trigger pair_in_order(avail, ps, m1, m2)]
                0 <= m1 < m2 < avail.len() ==> pair_in_order(avail, ps, m1, m2)
        }),
{
    lemma_filter_keeps_relative_order(
        ps,
        |q: BtProfileV|
            bt_profile_matches(
                q,
                class_id,
                name,
                modalias_vendor_id,
                modalias_device_id,
                modalias_product_id,
            ),
    );
}

/// The parsed Bluetooth catalog is ascending by priority after every
/// append.
pub proof fn lemma_bt_catalog_sorted(items: Seq<Json>, locale: Seq<char>, license_fallback: Seq<char>)
    ensures
        sorted_by(bt_catalog_of(items, locale, license_fallback), |p: BtProfileV| p.priority),
    decreases items.len(),
{
    if items.len() > 0 {
        lemma_bt_catalog_sorted(items.drop_last(), locale, license_fallback);
        crate::catalog::lemma_stable_insert_sorted(
            bt_catalog_of(items.drop_last(), locale, license_fallback),
            bt_profile_of_json(items.last(), locale, license_fallback),
            |p: BtProfileV| p.priority,
        );
    }
}

} // verus!
