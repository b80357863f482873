use vstd::prelude::*;

use crate::strutil::list_has;

verus! {

/// One field triple of the shared matching algebra: the device's attribute
/// value for the field, the profile's whitelist for it and the profile's
/// blacklist for it.  Every device domain matches by building one triple per
/// identification field and handing the list to [`rules_match`].
pub struct MatchRule {
    pub value: String,
    pub whitelist: Vec<String>,
    pub blacklist: Vec<String>,
}

/// The wildcard token: a field list containing it matches any device value.
pub open spec fn wildcard() -> Seq<char> {
    "*"@
}

/// A field list hits a value when it holds the wildcard or the value itself.
pub open spec fn list_hits(l: Seq<Seq<char>>, v: Seq<char>) -> bool {
    l.contains(wildcard()) || l.contains(v)
}

/// A single field triple rejects the profile when its blacklist hits.
pub open spec fn rule_rejects(r: MatchRule) -> bool {
    list_hits(r.blacklist.deep_view(), r.value@)
}

/// A single field triple permits the profile when its whitelist hits.
pub open spec fn rule_permits(r: MatchRule) -> bool {
    list_hits(r.whitelist.deep_view(), r.value@)
}

/// A blacklist hit on any field excludes the profile outright.
pub open spec fn rules_reject(rs: Seq<MatchRule>) -> bool {
    exists|i: int| 0 <= i < rs.len() && rule_rejects(rs[i])
}

/// Every whitelist field must hit: conjunction across fields, disjunction
/// within one field's list.
pub open spec fn rules_permit(rs: Seq<MatchRule>) -> bool {
    forall|i: int| 0 <= i < rs.len() ==> rule_permits(rs[i])
}

/// The shared wildcard/blacklist matching algebra over the field triples of
/// one (device, profile) pair: the profile matches exactly when no blacklist
/// field hits and every whitelist field hits.
pub open spec fn rules_match_spec(rs: Seq<MatchRule>) -> bool {
    !rules_reject(rs) && rules_permit(rs)
}

fn list_hits_exec(l: &Vec<String>, v: &str) -> (r: bool)
    ensures
        r == list_hits(l.deep_view(), v@),
{
    list_has(l, "*") || list_has(l, v)
}

/// Evaluates the matching algebra on the field triples of one
/// (device, profile) pair.
pub fn rules_match(rs: &Vec<MatchRule>) -> (r: bool)
    ensures
        r == rules_match_spec(rs@),
{
    let mut i: usize = 0;
    while i < rs.len()
        invariant
            0 <= i <= rs.len(),
            forall|j: int| 0 <= j < i ==> !rule_rejects(rs@[j]),
        decreases rs.len() - i,
    {
        if list_hits_exec(&rs[i].blacklist, rs[i].value.as_str()) {
            assert(rule_rejects(rs@[i as int]));
            return false;
        }
        i += 1;
    }
    let mut k: usize = 0;
    while k < rs.len()
        invariant
            0 <= k <= rs.len(),
            !rules_reject(rs@),
            forall|j: int| 0 <= j < k ==> rule_permits(rs@[j]),
        decreases rs.len() - k,
    {
        if !list_hits_exec(&rs[k].whitelist, rs[k].value.as_str()) {
            assert(!rule_permits(rs@[k as int]));
            return false;
        }
        k += 1;
    }
    true
}

/// A blacklist hit on any one field excludes the profile, whatever the
/// whitelist fields say.
pub proof fn lemma_blacklist_excludes(rs: Seq<MatchRule>, i: int)
    requires
        0 <= i < rs.len(),
        rule_rejects(rs[i]),
    ensures
        !rules_match_spec(rs),
{
}

} // verus!
