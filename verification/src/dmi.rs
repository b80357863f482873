use vstd::prelude::*;

use crate::catalog::{
    find_by_codename, insert_by_priority, lemma_filter_keeps_relative_order,
    lemma_filter_keeps_sorted, lemma_filter_membership, pair_in_order, sorted_by, stable_insert,
    CatalogEntry,
};
use crate::errors::CfhdbError;
use crate::executor::{execute_plan, plan_action, run_status_check, ExecOutcome};
use crate::fetch::resolve_catalog_source;
use crate::json::{
    all_packages_ok, json_of, parse_json, spec_bool_field, spec_desc, spec_int_field,
    spec_packages, spec_profiles_array, spec_script, spec_str_field_or, spec_str_list, Json,
};
use crate::matching::{
    list_hits, rule_permits, rule_rejects, rules_match, rules_match_spec, rules_permit,
    rules_reject, MatchRule,
};
use crate::strutil::{
    clone_opt_string, clone_opt_string_vec, clone_string_vec, str_eq, truncate_i64_to_i32,
};

verus! {

/// The mathematical image of a DMI profile record.
pub ghost struct DmiProfileV {
    pub codename: Seq<char>,
    pub i18n_desc: Seq<char>,
    pub icon_name: Seq<char>,
    pub license: Seq<char>,
    pub bios_vendors: Seq<Seq<char>>,
    pub board_asset_tags: Seq<Seq<char>>,
    pub board_names: Seq<Seq<char>>,
    pub board_vendors: Seq<Seq<char>>,
    pub product_families: Seq<Seq<char>>,
    pub product_names: Seq<Seq<char>>,
    pub product_skus: Seq<Seq<char>>,
    pub sys_vendors: Seq<Seq<char>>,
    pub blacklisted_bios_vendors: Seq<Seq<char>>,
    pub blacklisted_board_asset_tags: Seq<Seq<char>>,
    pub blacklisted_board_names: Seq<Seq<char>>,
    pub blacklisted_board_vendors: Seq<Seq<char>>,
    pub blacklisted_product_families: Seq<Seq<char>>,
    pub blacklisted_product_names: Seq<Seq<char>>,
    pub blacklisted_product_skus: Seq<Seq<char>>,
    pub blacklisted_sys_vendors: Seq<Seq<char>>,
    pub packages: Option<Seq<Seq<char>>>,
    pub check_script: Seq<char>,
    pub install_script: Option<Seq<char>>,
    pub remove_script: Option<Seq<char>>,
    pub experimental: bool,
    pub removable: bool,
    pub veiled: bool,
    pub priority: int,
}

/// A declarative catalog entry for the DMI/board domain: which machines it
/// applies to (whitelist and blacklist field lists over BIOS, board,
/// product and system identifiers) and how to install, remove and
/// status-check the associated software.
pub struct CfhdbDmiProfile {
    pub codename: String,
    pub i18n_desc: String,
    pub icon_name: String,
    pub license: String,
    pub bios_vendors: Vec<String>,
    pub board_asset_tags: Vec<String>,
    pub board_names: Vec<String>,
    pub board_vendors: Vec<String>,
    pub product_families: Vec<String>,
    pub product_names: Vec<String>,
    pub product_skus: Vec<String>,
    pub sys_vendors: Vec<String>,
    pub blacklisted_bios_vendors: Vec<String>,
    pub blacklisted_board_asset_tags: Vec<String>,
    pub blacklisted_board_names: Vec<String>,
    pub blacklisted_board_vendors: Vec<String>,
    pub blacklisted_product_families: Vec<String>,
    pub blacklisted_product_names: Vec<String>,
    pub blacklisted_product_skus: Vec<String>,
    pub blacklisted_sys_vendors: Vec<String>,
    pub packages: Option<Vec<String>>,
    pub check_script: String,
    pub install_script: Option<String>,
    pub remove_script: Option<String>,
    pub experimental: bool,
    pub removable: bool,
    pub veiled: bool,
    pub priority: i32,
}

impl View for CfhdbDmiProfile {
    type V = DmiProfileV;

    open spec fn view(&self) -> DmiProfileV {
        DmiProfileV {
            codename: self.codename@,
            i18n_desc: self.i18n_desc@,
            icon_name: self.icon_name@,
            license: self.license@,
            bios_vendors: self.bios_vendors.deep_view(),
            board_asset_tags: self.board_asset_tags.deep_view(),
            board_names: self.board_names.deep_view(),
            board_vendors: self.board_vendors.deep_view(),
            product_families: self.product_families.deep_view(),
            product_names: self.product_names.deep_view(),
            product_skus: self.product_skus.deep_view(),
            sys_vendors: self.sys_vendors.deep_view(),
            blacklisted_bios_vendors: self.blacklisted_bios_vendors.deep_view(),
            blacklisted_board_asset_tags: self.blacklisted_board_asset_tags.deep_view(),
            blacklisted_board_names: self.blacklisted_board_names.deep_view(),
            blacklisted_board_vendors: self.blacklisted_board_vendors.deep_view(),
            blacklisted_product_families: self.blacklisted_product_families.deep_view(),
            blacklisted_product_names: self.blacklisted_product_names.deep_view(),
            blacklisted_product_skus: self.blacklisted_product_skus.deep_view(),
            blacklisted_sys_vendors: self.blacklisted_sys_vendors.deep_view(),
            packages: self.packages.deep_view(),
            check_script: self.check_script@,
            install_script: self.install_script.deep_view(),
            remove_script: self.remove_script.deep_view(),
            experimental: self.experimental,
            removable: self.removable,
            veiled: self.veiled,
            priority: self.priority as int,
        }
    }
}

impl DeepView for CfhdbDmiProfile {
    type V = DmiProfileV;

    open spec fn deep_view(&self) -> DmiProfileV {
        self.view()
    }
}

impl CatalogEntry for CfhdbDmiProfile {
    open spec fn priority_spec(&self) -> int {
        self@.priority
    }

    open spec fn codename_spec(&self) -> Seq<char> {
        self@.codename
    }

    fn priority_value(&self) -> (r: i32) {
        self.priority
    }

    fn codename_is(&self, name: &str) -> (r: bool) {
        str_eq(self.codename.as_str(), name)
    }
}

impl CfhdbDmiProfile {
    /// A copy of the record with the same mathematical image.
    pub fn duplicate(&self) -> (r: Self)
        ensures
            r@ == self@,
    {
        CfhdbDmiProfile {
            codename: self.codename.clone(),
            i18n_desc: self.i18n_desc.clone(),
            icon_name: self.icon_name.clone(),
            license: self.license.clone(),
            bios_vendors: clone_string_vec(&self.bios_vendors),
            board_asset_tags: clone_string_vec(&self.board_asset_tags),
            board_names: clone_string_vec(&self.board_names),
            board_vendors: clone_string_vec(&self.board_vendors),
            product_families: clone_string_vec(&self.product_families),
            product_names: clone_string_vec(&self.product_names),
            product_skus: clone_string_vec(&self.product_skus),
            sys_vendors: clone_string_vec(&self.sys_vendors),
            blacklisted_bios_vendors: clone_string_vec(&self.blacklisted_bios_vendors),
            blacklisted_board_asset_tags: clone_string_vec(&self.blacklisted_board_asset_tags),
            blacklisted_board_names: clone_string_vec(&self.blacklisted_board_names),
            blacklisted_board_vendors: clone_string_vec(&self.blacklisted_board_vendors),
            blacklisted_product_families: clone_string_vec(&self.blacklisted_product_families),
            blacklisted_product_names: clone_string_vec(&self.blacklisted_product_names),
            blacklisted_product_skus: clone_string_vec(&self.blacklisted_product_skus),
            blacklisted_sys_vendors: clone_string_vec(&self.blacklisted_sys_vendors),
            packages: clone_opt_string_vec(&self.packages),
            check_script: self.check_script.clone(),
            install_script: clone_opt_string(&self.install_script),
            remove_script: clone_opt_string(&self.remove_script),
            experimental: self.experimental,
            removable: self.removable,
            veiled: self.veiled,
            priority: self.priority,
        }
    }
}

/// The identification attributes a DMI profile is matched against.
pub ghost struct DmiIdV {
    pub bios_vendor: Seq<char>,
    pub board_asset_tag: Seq<char>,
    pub board_name: Seq<char>,
    pub board_vendor: Seq<char>,
    pub product_family: Seq<char>,
    pub product_name: Seq<char>,
    pub product_sku: Seq<char>,
    pub sys_vendor: Seq<char>,
}

/// The DMI instance of the shared rule algebra over the eight
/// identification fields.
pub open spec fn dmi_profile_matches(p: DmiProfileV, d: DmiIdV) -> bool {
    &&& !list_hits(p.blacklisted_bios_vendors, d.bios_vendor)
    &&& !list_hits(p.blacklisted_board_asset_tags, d.board_asset_tag)
    &&& !list_hits(p.blacklisted_board_names, d.board_name)
    &&& !list_hits(p.blacklisted_board_vendors, d.board_vendor)
    &&& !list_hits(p.blacklisted_product_families, d.product_family)
    &&& !list_hits(p.blacklisted_product_names, d.product_name)
    &&& !list_hits(p.blacklisted_product_skus, d.product_sku)
    &&& !list_hits(p.blacklisted_sys_vendors, d.sys_vendor)
    &&& list_hits(p.bios_vendors, d.bios_vendor)
    &&& list_hits(p.board_asset_tags, d.board_asset_tag)
    &&& list_hits(p.board_names, d.board_name)
    &&& list_hits(p.board_vendors, d.board_vendor)
    &&& list_hits(p.product_families, d.product_family)
    &&& list_hits(p.product_names, d.product_name)
    &&& list_hits(p.product_skus, d.product_sku)
    &&& list_hits(p.sys_vendors, d.sys_vendor)
}

/// The ordered sublist of catalog profiles that apply to a machine with the
/// given identification; catalog order (ascending priority) is preserved.
pub open spec fn dmi_matching(ps: Seq<DmiProfileV>, d: DmiIdV) -> Seq<DmiProfileV> {
    ps.filter(|p: DmiProfileV| dmi_profile_matches(p, d))
}

/// The image of one catalog JSON entry under the DMI normalization rules.
pub open spec fn dmi_profile_of_json(j: Json, locale: Seq<char>, license_fallback: Seq<char>) -> DmiProfileV {
    DmiProfileV {
        codename: spec_str_field_or(j, "codename"@, Seq::empty()),
        i18n_desc: spec_desc(j, locale),
        icon_name: spec_str_field_or(j, "icon_name"@, "package-x-generic"@),
        license: spec_str_field_or(j, "license"@, license_fallback),
        bios_vendors: spec_str_list(j, "bios_vendors"@),
        board_asset_tags: spec_str_list(j, "board_asset_tags"@),
        board_names: spec_str_list(j, "board_names"@),
        board_vendors: spec_str_list(j, "board_vendors"@),
        product_families: spec_str_list(j, "product_families"@),
        product_names: spec_str_list(j, "product_names"@),
        product_skus: spec_str_list(j, "product_skus"@),
        sys_vendors: spec_str_list(j, "sys_vendors"@),
        blacklisted_bios_vendors: spec_str_list(j, "blacklisted_bios_vendors"@),
        blacklisted_board_asset_tags: spec_str_list(j, "blacklisted_board_asset_tags"@),
        blacklisted_board_names: spec_str_list(j, "blacklisted_board_names"@),
        blacklisted_board_vendors: spec_str_list(j, "blacklisted_board_vendors"@),
        blacklisted_product_families: spec_str_list(j, "blacklisted_product_families"@),
        blacklisted_product_names: spec_str_list(j, "blacklisted_product_names"@),
        blacklisted_product_skus: spec_str_list(j, "blacklisted_product_skus"@),
        blacklisted_sys_vendors: spec_str_list(j, "blacklisted_sys_vendors"@),
        packages: match spec_packages(j) {
            Some(p) => p,
            None => None,
        },
        check_script: spec_str_field_or(j, "check_script"@, "false"@),
        install_script: spec_script(j, "install_script"@),
        remove_script: spec_script(j, "remove_script"@),
        experimental: spec_bool_field(j, "experimental"@),
        removable: spec_bool_field(j, "removable"@),
        veiled: spec_bool_field(j, "veiled"@),
        priority: (spec_int_field(j, "priority"@) as i32) as int,
    }
}

/// Parses one catalog entry, failing only on a corrupt `packages` shape.
fn parse_dmi_profile(j: &Json, locale: &str, license_fallback: &str) -> (r: Result<
    CfhdbDmiProfile,
    CfhdbError,
>)
    ensures
        match r {
            Ok(p) => spec_packages(*j) is Some && p@ == dmi_profile_of_json(
                *j,
                locale@,
                license_fallback@,
            ),
            Err(e) => spec_packages(*j) is None && e == CfhdbError::CatalogCorrupt,
        },
{
    let packages = match j.packages_field() {
        Ok(p) => p,
        Err(e) => {
            return Err(e);
        },
    };
    Ok(
        CfhdbDmiProfile {
            codename: j.str_field_or_empty("codename"),
            i18n_desc: j.desc_field(locale),
            icon_name: j.str_field_or("icon_name", "package-x-generic"),
            license: j.str_field_or("license", license_fallback),
            bios_vendors: j.str_list_field("bios_vendors"),
            board_asset_tags: j.str_list_field("board_asset_tags"),
            board_names: j.str_list_field("board_names"),
            board_vendors: j.str_list_field("board_vendors"),
            product_families: j.str_list_field("product_families"),
            product_names: j.str_list_field("product_names"),
            product_skus: j.str_list_field("product_skus"),
            sys_vendors: j.str_list_field("sys_vendors"),
            blacklisted_bios_vendors: j.str_list_field("blacklisted_bios_vendors"),
            blacklisted_board_asset_tags: j.str_list_field("blacklisted_board_asset_tags"),
            blacklisted_board_names: j.str_list_field("blacklisted_board_names"),
            blacklisted_board_vendors: j.str_list_field("blacklisted_board_vendors"),
            blacklisted_product_families: j.str_list_field("blacklisted_product_families"),
            blacklisted_product_names: j.str_list_field("blacklisted_product_names"),
            blacklisted_product_skus: j.str_list_field("blacklisted_product_skus"),
            blacklisted_sys_vendors: j.str_list_field("blacklisted_sys_vendors"),
            packages,
            check_script: j.str_field_or("check_script", "false"),
            install_script: j.script_field("install_script"),
            remove_script: j.script_field("remove_script"),
            experimental: j.bool_field("experimental"),
            removable: j.bool_field("removable"),
            veiled: j.bool_field("veiled"),
            priority: truncate_i64_to_i32(j.int_field("priority")),
        },
    )
}

/// The DMI catalog built from the entries of the `profiles` array: each
/// parsed entry stable-inserted ascending by priority.
pub open spec fn dmi_catalog_of(items: Seq<Json>, locale: Seq<char>, license_fallback: Seq<char>) -> Seq<
    DmiProfileV,
>
    decreases items.len(),
{
    if items.len() == 0 {
        Seq::empty()
    } else {
        stable_insert(
            dmi_catalog_of(items.drop_last(), locale, license_fallback),
            dmi_profile_of_json(items.last(), locale, license_fallback),
            |p: DmiProfileV| p.priority,
        )
    }
}

proof fn lemma_dmi_insert_view(s: Seq<CfhdbDmiProfile>, p: CfhdbDmiProfile)
    ensures
        stable_insert(s, p, |t: CfhdbDmiProfile| t.priority_spec()).map_values(
            |t: CfhdbDmiProfile| t@,
        ) == stable_insert(
            s.map_values(|t: CfhdbDmiProfile| t@),
            p@,
            |v: DmiProfileV| v.priority,
        ),
    decreases s.len(),
{
    let keyt = |t: CfhdbDmiProfile| t.priority_spec();
    let keyv = |v: DmiProfileV| v.priority;
    let vw = |t: CfhdbDmiProfile| t@;
    let sv = s.map_values(vw);
    if s.len() == 0 {
        assert(stable_insert(s, p, keyt).map_values(vw) =~= stable_insert(sv, p@, keyv));
    } else {
        lemma_dmi_insert_view(s.drop_first(), p);
        assert(sv[0] == s[0]@);
        assert(s.drop_first().map_values(vw) =~= sv.drop_first());
        if keyt(s[0]) <= keyt(p) {
            assert(stable_insert(s, p, keyt).map_values(vw) =~= seq![s[0]@] + stable_insert(
                s.drop_first(),
                p,
                keyt,
            ).map_values(vw));
            assert(stable_insert(sv, p@, keyv) == seq![sv[0]] + stable_insert(
                sv.drop_first(),
                p@,
                keyv,
            ));
        } else {
            assert(stable_insert(s, p, keyt).map_values(vw) =~= seq![p@] + sv);
        }
    }
}

/// Normalizes a catalog document into the ordered DMI profile list.
pub fn parse_dmi_profiles(doc: &Json, locale: &str, license_fallback: &str) -> (r: Result<
    Vec<CfhdbDmiProfile>,
    CfhdbError,
>)
    ensures
        match spec_profiles_array(*doc) {
            None => r matches Ok(cat) && cat.deep_view() == Seq::<DmiProfileV>::empty(),
            Some(items) => if all_packages_ok(items) {
                r matches Ok(cat) && cat.deep_view() == dmi_catalog_of(
                    items,
                    locale@,
                    license_fallback@,
                )
            } else {
                r == Err::<Vec<CfhdbDmiProfile>, CfhdbError>(CfhdbError::CatalogCorrupt)
            },
        },
{
    match doc.profiles_array() {
        None => {
            let cat: Vec<CfhdbDmiProfile> = Vec::new();
            proof {
                assert(cat.deep_view() =~= Seq::<DmiProfileV>::empty());
            }
            Ok(cat)
        },
        Some(items) => {
            let ghost vw = |t: CfhdbDmiProfile| t@;
            let mut cat: Vec<CfhdbDmiProfile> = Vec::new();
            proof {
                assert(items@.take(0) =~= Seq::<Json>::empty());
                assert(cat@.map_values(vw) =~= Seq::<DmiProfileV>::empty());
            }
            let mut k: usize = 0;
            while k < items.len()
                invariant
                    0 <= k <= items.len(),
                    forall|m: int| 0 <= m < k ==> #[trigger] spec_packages(items@[m]) is Some,
                    cat@.map_values(vw) == dmi_catalog_of(
                        items@.take(k as int),
                        locale@,
                        license_fallback@,
                    ),
                decreases items.len() - k,
            {
                let p = match parse_dmi_profile(&items[k], locale, license_fallback) {
                    Ok(p) => p,
                    Err(e) => {
                        return Err(e);
                    },
                };
                let ghost cat0 = cat@;
                insert_by_priority(&mut cat, p);
                proof {
                    lemma_dmi_insert_view(cat0, p);
                    assert(items@.take(k + 1).drop_last() =~= items@.take(k as int));
                    assert(items@.take(k + 1).last() == items@[k as int]);
                }
                k += 1;
            }
            proof {
                assert(items@.take(items@.len() as int) =~= items@);
                assert(cat.deep_view() =~= cat@.map_values(vw));
            }
            Ok(cat)
        },
    }
}

/// The outcome of normalizing one catalog text for the DMI domain.
pub open spec fn dmi_text_outcome(text: Seq<char>, locale: Seq<char>, license_fallback: Seq<char>) -> Result<
    Seq<DmiProfileV>,
    CfhdbError,
> {
    match json_of(text) {
        None => Err(CfhdbError::CatalogCorrupt),
        Some(doc) => match spec_profiles_array(doc) {
            None => Ok(Seq::empty()),
            Some(items) => if all_packages_ok(items) {
                Ok(dmi_catalog_of(items, locale, license_fallback))
            } else {
                Err(CfhdbError::CatalogCorrupt)
            },
        },
    }
}

/// The outcome of the whole fetch-fallback-parse pipeline for the DMI
/// domain.
pub open spec fn dmi_sources_outcome(
    fetched: Option<Seq<char>>,
    cached: Option<Seq<char>>,
    locale: Seq<char>,
    license_fallback: Seq<char>,
) -> Result<Seq<DmiProfileV>, CfhdbError> {
    match fetched {
        Some(t) => dmi_text_outcome(t, locale, license_fallback),
        None => match cached {
            Some(t) => dmi_text_outcome(t, locale, license_fallback),
            None => Err(CfhdbError::FetchUnavailable),
        },
    }
}

/// Cache fallback for the DMI domain.
pub proof fn lemma_dmi_cache_fallback(cached: Seq<char>, locale: Seq<char>, license_fallback: Seq<char>)
    ensures
        dmi_sources_outcome(None, Some(cached), locale, license_fallback) == dmi_text_outcome(
            cached,
            locale,
            license_fallback,
        ),
        dmi_sources_outcome(None, None, locale, license_fallback) == Err::<
            Seq<DmiProfileV>,
            CfhdbError,
        >(CfhdbError::FetchUnavailable),
{
}

/// Resolves the DMI catalog from an attempted fetch and the cache contents.
pub fn dmi_profiles_from_sources(
    fetched: Option<String>,
    cached: Option<String>,
    locale: &str,
    license_fallback: &str,
) -> (r: Result<Vec<CfhdbDmiProfile>, CfhdbError>)
    ensures
        match r {
            Ok(cat) => dmi_sources_outcome(
                fetched.deep_view(),
                cached.deep_view(),
                locale@,
                license_fallback@,
            ) == Ok::<Seq<DmiProfileV>, CfhdbError>(cat.deep_view()),
            Err(e) => dmi_sources_outcome(
                fetched.deep_view(),
                cached.deep_view(),
                locale@,
                license_fallback@,
            ) == Err::<Seq<DmiProfileV>, CfhdbError>(e),
        },
{
    let chosen = match resolve_catalog_source(fetched, cached) {
        Ok(x) => x.0,
        Err(e) => {
            return Err(e);
        },
    };
    let doc = match parse_json(chosen.as_str()) {
        Some(d) => d,
        None => {
            return Err(CfhdbError::CatalogCorrupt);
        },
    };
    let r = parse_dmi_profiles(&doc, locale, license_fallback);
    proof {
        assert(json_of(chosen@) == Some(doc));
    }
    r
}

impl CfhdbDmiProfile {
    /// Selects the first catalog profile carrying the given codename.
    pub fn get_profile_from_codename(codename: &str, profiles: Vec<CfhdbDmiProfile>) -> (r: Result<
        Self,
        CfhdbError,
    >)
        ensures
            match r {
                Ok(p) => exists|i: int|
                    0 <= i < profiles@.len() && p == profiles@[i]
                        && #[trigger] profiles@[i]@.codename == codename@
                        && forall|j: int| 0 <= j < i ==> profiles@[j]@.codename != codename@,
                Err(e) => e == CfhdbError::ProfileNotFound && forall|j: int|
                    0 <= j < profiles@.len() ==> profiles@[j]@.codename != codename@,
            },
    {
        find_by_codename(codename, profiles)
    }

    /// Runs the profile's check script through the shell: true exactly when
    /// it exited 0.  The value depends on the machine's state.
    pub fn get_status(&self) -> bool {
        run_status_check(&self.check_script)
    }

    /// Drives installation: a no-op when the profile already reports
    /// installed, otherwise one shell invocation of the combined
    /// package-manager step and install fragment.
    pub fn install(&self, pkg_install_cmd: &Option<String>) -> (r: Result<ExecOutcome, CfhdbError>)
        ensures
            r matches Err(e) ==> e == CfhdbError::ExecutionFailure,
    {
        let installed = self.get_status();
        let plan = plan_action(installed, pkg_install_cmd, &self.install_script);
        execute_plan(plan)
    }

    /// Drives removal: a no-op when the profile already reports not
    /// installed, otherwise one shell invocation of the combined
    /// package-manager step and remove fragment.
    pub fn uninstall(&self, pkg_remove_cmd: &Option<String>) -> (r: Result<ExecOutcome, CfhdbError>)
        ensures
            r matches Err(e) ==> e == CfhdbError::ExecutionFailure,
    {
        let installed = self.get_status();
        let plan = plan_action(!installed, pkg_remove_cmd, &self.remove_script);
        execute_plan(plan)
    }
}

/// The mathematical image of the machine's DMI snapshot.
pub ghost struct DmiInfoV {
    pub bios_date: Seq<char>,
    pub bios_release: Seq<char>,
    pub bios_vendor: Seq<char>,
    pub bios_version: Seq<char>,
    pub board_asset_tag: Seq<char>,
    pub board_name: Seq<char>,
    pub board_vendor: Seq<char>,
    pub board_version: Seq<char>,
    pub product_family: Seq<char>,
    pub product_name: Seq<char>,
    pub product_sku: Seq<char>,
    pub product_version: Seq<char>,
    pub sys_vendor: Seq<char>,
    pub available_profiles: Option<Seq<DmiProfileV>>,
}

/// The machine's matching-profile slot: unset until a matching pass writes
/// it, and left unset by a pass that matches nothing.
pub struct ProfileWrapper(pub Option<Vec<CfhdbDmiProfile>>);

impl View for ProfileWrapper {
    type V = Option<Seq<DmiProfileV>>;

    open spec fn view(&self) -> Option<Seq<DmiProfileV>> {
        self.0.deep_view()
    }
}

/// A read-only snapshot of the machine's DMI/board identification strings,
/// plus the matching-profile slot.
pub struct CfhdbDmiInfo {
    pub bios_date: String,
    pub bios_release: String,
    pub bios_vendor: String,
    pub bios_version: String,
    pub board_asset_tag: String,
    pub board_name: String,
    pub board_vendor: String,
    pub board_version: String,
    pub product_family: String,
    pub product_name: String,
    pub product_sku: String,
    pub product_version: String,
    pub sys_vendor: String,
    pub available_profiles: ProfileWrapper,
}

impl View for CfhdbDmiInfo {
    type V = DmiInfoV;

    open spec fn view(&self) -> DmiInfoV {
        DmiInfoV {
            bios_date: self.bios_date@,
            bios_release: self.bios_release@,
            bios_vendor: self.bios_vendor@,
            bios_version: self.bios_version@,
            board_asset_tag: self.board_asset_tag@,
            board_name: self.board_name@,
            board_vendor: self.board_vendor@,
            board_version: self.board_version@,
            product_family: self.product_family@,
            product_name: self.product_name@,
            product_sku: self.product_sku@,
            product_version: self.product_version@,
            sys_vendor: self.sys_vendor@,
            available_profiles: self.available_profiles@,
        }
    }
}

impl DeepView for CfhdbDmiInfo {
    type V = DmiInfoV;

    open spec fn deep_view(&self) -> DmiInfoV {
        self.view()
    }
}

/// The identification attributes of a DMI snapshot, as the match engine
/// reads them.
pub open spec fn dmi_id_of(d: DmiInfoV) -> DmiIdV {
    DmiIdV {
        bios_vendor: d.bios_vendor,
        board_asset_tag: d.board_asset_tag,
        board_name: d.board_name,
        board_vendor: d.board_vendor,
        product_family: d.product_family,
        product_name: d.product_name,
        product_sku: d.product_sku,
        sys_vendor: d.sys_vendor,
    }
}

/// The field triples of one (DMI snapshot, profile) pair.
fn dmi_rules(p: &CfhdbDmiProfile, info: &CfhdbDmiInfo) -> (rs: Vec<MatchRule>)
    ensures
        rules_match_spec(rs@) == dmi_profile_matches(p@, dmi_id_of(info@)),
{
    let mut rs: Vec<MatchRule> = Vec::new();
    rs.push(
        MatchRule {
            value: info.bios_vendor.clone(),
            whitelist: clone_string_vec(&p.bios_vendors),
            blacklist: clone_string_vec(&p.blacklisted_bios_vendors),
        },
    );
    rs.push(
        MatchRule {
            value: info.board_asset_tag.clone(),
            whitelist: clone_string_vec(&p.board_asset_tags),
            blacklist: clone_string_vec(&p.blacklisted_board_asset_tags),
        },
    );
    rs.push(
        MatchRule {
            value: info.board_name.clone(),
            whitelist: clone_string_vec(&p.board_names),
            blacklist: clone_string_vec(&p.blacklisted_board_names),
        },
    );
    rs.push(
        MatchRule {
            value: info.board_vendor.clone(),
            whitelist: clone_string_vec(&p.board_vendors),
            blacklist: clone_string_vec(&p.blacklisted_board_vendors),
        },
    );
    rs.push(
        MatchRule {
            value: info.product_family.clone(),
            whitelist: clone_string_vec(&p.product_families),
            blacklist: clone_string_vec(&p.blacklisted_product_families),
        },
    );
    rs.push(
        MatchRule {
            value: info.product_name.clone(),
            whitelist: clone_string_vec(&p.product_names),
            blacklist: clone_string_vec(&p.blacklisted_product_names),
        },
    );
    rs.push(
        MatchRule {
            value: info.product_sku.clone(),
            whitelist: clone_string_vec(&p.product_skus),
            blacklist: clone_string_vec(&p.blacklisted_product_skus),
        },
    );
    rs.push(
        MatchRule {
            value: info.sys_vendor.clone(),
            whitelist: clone_string_vec(&p.sys_vendors),
            blacklist: clone_string_vec(&p.blacklisted_sys_vendors),
        },
    );
    proof {
        assert(rs@.len() == 8);
        assert(rules_reject(rs@) <==> (rule_rejects(rs@[0]) || rule_rejects(rs@[1])
            || rule_rejects(rs@[2]) || rule_rejects(rs@[3]) || rule_rejects(rs@[4])
            || rule_rejects(rs@[5]) || rule_rejects(rs@[6]) || rule_rejects(rs@[7]))) by {
            if rules_reject(rs@) {
                let i = choose|i: int| 0 <= i < rs@.len() && rule_rejects(rs@[i]);
                assert(i == 0 || i == 1 || i == 2 || i == 3 || i == 4 || i == 5 || i == 6 || i
                    == 7);
            }
        }
        assert(rules_permit(rs@) <==> (rule_permits(rs@[0]) && rule_permits(rs@[1])
            && rule_permits(rs@[2]) && rule_permits(rs@[3]) && rule_permits(rs@[4])
            && rule_permits(rs@[5]) && rule_permits(rs@[6]) && rule_permits(rs@[7]))) by {
            if rule_permits(rs@[0]) && rule_permits(rs@[1]) && rule_permits(rs@[2])
                && rule_permits(rs@[3]) && rule_permits(rs@[4]) && rule_permits(rs@[5])
                && rule_permits(rs@[6]) && rule_permits(rs@[7]) {
                assert forall|i: int| 0 <= i < rs@.len() implies rule_permits(rs@[i]) by {
                    assert(i == 0 || i == 1 || i == 2 || i == 3 || i == 4 || i == 5 || i == 6
                        || i == 7);
                }
            }
        }
    }
    rs
}

impl CfhdbDmiInfo {
    /// Computes the ordered matching-profile list of the machine against a
    /// catalog, and writes the slot only when the list is non-empty: a
    /// machine that matches nothing keeps its previous slot value.
    pub fn set_available_profiles(profile_data: &[CfhdbDmiProfile], info: &mut Self)
        ensures
            ({
                let matched = dmi_matching(profile_data.deep_view(), dmi_id_of(old(info)@));
                final(info)@ == (DmiInfoV {
                    available_profiles: if matched.len() > 0 {
                        Some(matched)
                    } else {
                        old(info)@.available_profiles
                    },
                    ..old(info)@
                })
            }),
    {
        let ghost dv0 = info@;
        let ghost dvs = profile_data.deep_view();
        let ghost pred = |q: DmiProfileV| dmi_profile_matches(q, dmi_id_of(dv0));
        let mut matched: Vec<CfhdbDmiProfile> = Vec::new();
        proof {
            reveal(Seq::filter);
            assert(dvs.take(0) =~= Seq::<DmiProfileV>::empty());
            assert(matched.deep_view() =~= dvs.take(0).filter(pred));
        }
        let mut i: usize = 0;
        while i < profile_data.len()
            invariant
                0 <= i <= profile_data.len(),
                matched.deep_view() == dvs.take(i as int).filter(pred),
            decreases profile_data.len() - i,
        {
            let p = vstd::slice::slice_index_get(profile_data, i);
            let rs = dmi_rules(p, info);
            let ghost m0 = matched.deep_view();
            let is_match = rules_match(&rs);
            if is_match {
                matched.push(p.duplicate());
            }
            proof {
                reveal(Seq::filter);
                assert(dvs.take(i + 1).drop_last() =~= dvs.take(i as int));
                assert(dvs.take(i + 1).last() == dvs[i as int]);
                assert(dvs[i as int] == profile_data@[i as int]@);
                assert(pred(dvs[i as int]) == is_match);
                if is_match {
                    assert(matched.deep_view() =~= m0.push(dvs[i as int]));
                } else {
                    assert(matched.deep_view() == m0);
                }
            }
            i += 1;
        }
        proof {
            assert(dvs.take(profile_data@.len() as int) =~= dvs);
        }
        if matched.len() > 0 {
            proof {
                assert(matched.deep_view().len() > 0);
            }
            info.available_profiles = ProfileWrapper(Some(matched));
        } else {
            proof {
                assert(dmi_matching(dvs, dmi_id_of(dv0)).len() == 0);
            }
        }
    }
}

/// A blacklist hit on any field of a profile keeps it out of the available
/// list of a machine with the given identification, whatever its whitelist
/// fields say.
pub proof fn lemma_dmi_blacklist_excludes(ps: Seq<DmiProfileV>, p: DmiProfileV, d: DmiIdV)
    requires
        list_hits(p.blacklisted_bios_vendors, d.bios_vendor) || list_hits(
            p.blacklisted_board_asset_tags,
            d.board_asset_tag,
        ) || list_hits(p.blacklisted_board_names, d.board_name) || list_hits(
            p.blacklisted_board_vendors,
            d.board_vendor,
        ) || list_hits(p.blacklisted_product_families, d.product_family) || list_hits(
            p.blacklisted_product_names,
            d.product_name,
        ) || list_hits(p.blacklisted_product_skus, d.product_sku) || list_hits(
            p.blacklisted_sys_vendors,
            d.sys_vendor,
        ),
    ensures
        !dmi_matching(ps, d).contains(p),
{
    lemma_filter_membership(ps, |q: DmiProfileV| dmi_profile_matches(q, d), p);
}

/// A profile stands in the available list exactly when it stands in the
/// catalog, no blacklist field hits and every whitelist field hits.
pub proof fn lemma_dmi_available_iff(ps: Seq<DmiProfileV>, p: DmiProfileV, d: DmiIdV)
    ensures
        dmi_matching(ps, d).contains(p) <==> (ps.contains(p) && dmi_profile_matches(p, d)),
{
    lemma_filter_membership(ps, |q: DmiProfileV| dmi_profile_matches(q, d), p);
}

/// An ascending catalog yields an ascending available list.
pub proof fn lemma_dmi_available_sorted(ps: Seq<DmiProfileV>, d: DmiIdV)
    requires
        sorted_by(ps, |q: DmiProfileV| q.priority),
    ensures
        sorted_by(dmi_matching(ps, d), |q: DmiProfileV| q.priority),
{
    lemma_filter_keeps_sorted(
        ps,
        |q: DmiProfileV| dmi_profile_matches(q, d),
        |q: DmiProfileV| q.priority,
    );
}

/// The available list keeps the catalog's relative order: any two of its
/// elements stand at catalog positions in the same order, so ties by
/// priority keep their catalog order too.
pub proof fn lemma_dmi_available_keeps_relative_order(ps: Seq<DmiProfileV>, d: DmiIdV)
    ensures
        forall|m1: int, m2: int|
            #![trigger pair_in_order(dmi_matching(ps, d), ps, m1, m2)]
            0 <= m1 < m2 < dmi_matching(ps, d).len() ==> pair_in_order(
                dmi_matching(ps, d),
                ps,
                m1,
                m2,
            ),
{
    lemma_filter_keeps_relative_order(ps, |q: DmiProfileV| dmi_profile_matches(q, d));
}

/// The parsed DMI catalog is ascending by priority after every append.
pub proof fn lemma_dmi_catalog_sorted(items: Seq<Json>, locale: Seq<char>, license_fallback: Seq<char>)
    ensures
        sorted_by(dmi_catalog_of(items, locale, license_fallback), |p: DmiProfileV| p.priority),
    decreases items.len(),
{
    if items.len() > 0 {
        lemma_dmi_catalog_sorted(items.drop_last(), locale, license_fallback);
        crate::catalog::lemma_stable_insert_sorted(
            dmi_catalog_of(items.drop_last(), locale, license_fallback),
            dmi_profile_of_json(items.last(), locale, license_fallback),
            |p: DmiProfileV| p.priority,
        );
    }
}

} // verus!
