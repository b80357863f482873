use vstd::prelude::*;

verus! {

/// Equality of two string slices, stated over their character views.
pub fn str_eq(a: &str, b: &str) -> (r: bool)
    ensures
        r == (a@ == b@),
{
    let x = a.to_owned();
    let y = b.to_owned();
    x == y
}

/// Whether one of the strings in `l` equals `x`.
pub fn list_has(l: &Vec<String>, x: &str) -> (r: bool)
    ensures
        r == l.deep_view().contains(x@),
{
    let mut i: usize = 0;
    while i < l.len()
        invariant
            0 <= i <= l.len(),
            forall|j: int| 0 <= j < i ==> l.deep_view()[j] != x@,
        decreases l.len() - i,
    {
        if str_eq(l[i].as_str(), x) {
            assert(l.deep_view()[i as int] == x@);
            return true;
        }
        i += 1;
    }
    assert(forall|j: int| 0 <= j < l.deep_view().len() ==> l.deep_view()[j] != x@);
    false
}

/// The wrapping conversion of a 64-bit value into the stored 32-bit
/// priority, as the catalog format prescribes.
pub fn truncate_i64_to_i32(x: i64) -> (r: i32)
    ensures
        r == x as i32,
{
    #[verifier::truncate] (x as i32)
}

/// A copy of a string list with the same deep view.
pub fn clone_string_vec(v: &Vec<String>) -> (r: Vec<String>)
    ensures
        r.deep_view() == v.deep_view(),
{
    let r = v.clone();
    proof {
        broadcast use vstd::std_specs::vec::vec_clone_deep_view_proof;

        assert(vstd::std_specs::vec::vec_clone_trigger(*v, r));
    }
    r
}

/// A copy of an optional string with the same deep view.
pub fn clone_opt_string(v: &Option<String>) -> (r: Option<String>)
    ensures
        r.deep_view() == v.deep_view(),
{
    match v {
        Some(s) => Some(s.clone()),
        None => None,
    }
}

/// A copy of an optional string list with the same deep view.
pub fn clone_opt_string_vec(v: &Option<Vec<String>>) -> (r: Option<Vec<String>>)
    ensures
        r.deep_view() == v.deep_view(),
{
    match v {
        Some(l) => Some(clone_string_vec(l)),
        None => None,
    }
}

} // verus!
