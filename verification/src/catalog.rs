use vstd::prelude::*;

use crate::errors::CfhdbError;

verus! {

/// Behaviour shared by the three domains' profile records: a numeric
/// priority (lower sorts first, the sole ordering key of every listing) and
/// a codename (the primary key of a catalog).
pub trait CatalogEntry: Sized {
    /// The priority as a mathematical integer.
    spec fn priority_spec(&self) -> int;

    /// The codename as a character sequence.
    spec fn codename_spec(&self) -> Seq<char>;

    /// The stored priority value.
    fn priority_value(&self) -> (r: i32)
        ensures
            r as int == self.priority_spec(),
    ;

    /// Whether this entry's codename equals `name`.
    fn codename_is(&self, name: &str) -> (r: bool)
        ensures
            r == (self.codename_spec() == name@),
    ;
}

/// Ascending order of a sequence under an integer key.
pub open spec fn sorted_by<T>(s: Seq<T>, key: spec_fn(T) -> int) -> bool {
    forall|i: int, j: int| 0 <= i <= j < s.len() ==> #[trigger] key(s[i]) <= #[trigger] key(s[j])
}

/// A catalog is ordered ascending by priority.
pub open spec fn sorted_by_priority<T: CatalogEntry>(s: Seq<T>) -> bool {
    sorted_by(s, |t: T| t.priority_spec())
}

/// Where a stable ascending insertion under `key` puts `p`: after every
/// element whose key is at most `p`'s (ties keep insertion order), before
/// the rest.
pub open spec fn stable_insert<T>(s: Seq<T>, p: T, key: spec_fn(T) -> int) -> Seq<T>
    decreases s.len(),
{
    if s.len() == 0 {
        seq![p]
    } else if key(s[0]) <= key(p) {
        seq![s[0]] + stable_insert(s.drop_first(), p, key)
    } else {
        seq![p] + s
    }
}

/// The index at which [`stable_insert`] places the new element: the first
/// position whose key exceeds the new element's.
pub open spec fn stable_insert_pos<T>(s: Seq<T>, p: T, key: spec_fn(T) -> int) -> int
    decreases s.len(),
{
    if s.len() == 0 {
        0
    } else if key(s[0]) <= key(p) {
        1 + stable_insert_pos(s.drop_first(), p, key)
    } else {
        0
    }
}

/// A stable insertion is an insertion at [`stable_insert_pos`]: every element
/// before the position has a key at most `p`'s and the element at it, if any,
/// a strictly greater one.
pub proof fn lemma_stable_insert_is_insert_at<T>(s: Seq<T>, p: T, key: spec_fn(T) -> int)
    ensures
        0 <= stable_insert_pos(s, p, key) <= s.len(),
        forall|j: int| 0 <= j < stable_insert_pos(s, p, key) ==> #[trigger] key(s[j]) <= key(p),
        stable_insert_pos(s, p, key) < s.len() ==> key(s[stable_insert_pos(s, p, key)]) > key(p),
        stable_insert(s, p, key) == s.insert(stable_insert_pos(s, p, key), p),
    decreases s.len(),
{
    let i = stable_insert_pos(s, p, key);
    if s.len() == 0 {
        assert(stable_insert(s, p, key) =~= s.insert(0, p));
    } else if key(s[0]) <= key(p) {
        lemma_stable_insert_is_insert_at(s.drop_first(), p, key);
        assert(forall|j: int| 0 <= j < i - 1 ==> #[trigger] key(s.drop_first()[j]) <= key(p));
        assert forall|j: int| 0 <= j < i implies #[trigger] key(s[j]) <= key(p) by {
            if j >= 1 {
                assert(s[j] == s.drop_first()[j - 1]);
            }
        }
        assert(stable_insert(s, p, key)
            =~= seq![s[0]] + s.drop_first().insert(i - 1, p));
        assert(seq![s[0]] + s.drop_first().insert(i - 1, p) =~= s.insert(i, p));
    } else {
        assert(stable_insert(s, p, key) =~= s.insert(0, p));
    }
}

/// A stable insertion into an ascending catalog leaves it ascending.
pub proof fn lemma_stable_insert_sorted<T>(s: Seq<T>, p: T, key: spec_fn(T) -> int)
    requires
        sorted_by(s, key),
    ensures
        sorted_by(stable_insert(s, p, key), key),
{
    lemma_stable_insert_is_insert_at(s, p, key);
    let i = stable_insert_pos(s, p, key);
    let r = s.insert(i, p);
    assert forall|a: int, b: int| 0 <= a <= b < r.len() implies #[trigger] key(r[a]) <= #[trigger] key(r[b]) by {
        assert(forall|k: int| 0 <= k < i ==> r[k] == s[k]);
        assert(r[i] == p);
        assert(forall|k: int| i < k < r.len() ==> r[k] == s[k - 1]);
        if a < i && b == i {
            assert(key(s[a]) <= key(p));
        } else if a == i && b > i {
            assert(key(s[b - 1]) > key(p));
        } else if a < i && b > i {
            assert(key(s[a]) <= key(s[b - 1]));
        }
    }
}

/// Membership in a filtered sequence: exactly the members that satisfy the
/// predicate.
pub proof fn lemma_filter_membership<T>(s: Seq<T>, pred: spec_fn(T) -> bool, x: T)
    ensures
        s.filter(pred).contains(x) <==> (s.contains(x) && pred(x)),
    decreases s.len(),
{
    reveal(Seq::filter);
    if s.len() == 0 {
    } else {
        let prefix = s.drop_last();
        lemma_filter_membership(prefix, pred, x);
        assert(prefix.contains(x) ==> s.contains(x)) by {
            if prefix.contains(x) {
                let k = choose|k: int| 0 <= k < prefix.len() && prefix[k] == x;
                assert(s[k] == x);
            }
        }
        if s.contains(x) && pred(x) {
            let k = choose|k: int| 0 <= k < s.len() && s[k] == x;
            if k < s.len() - 1 {
                assert(prefix[k] == x);
                assert(prefix.filter(pred).contains(x));
                let m = choose|m: int| 0 <= m < prefix.filter(pred).len()
                    && prefix.filter(pred)[m] == x;
                assert(s.filter(pred)[m] == x);
            } else {
                assert(s.last() == x);
                assert(s.filter(pred).last() == x);
            }
        }
        if s.filter(pred).contains(x) {
            let m = choose|m: int| 0 <= m < s.filter(pred).len() && s.filter(pred)[m] == x;
            if pred(s.last()) {
                if m < s.filter(pred).len() - 1 {
                    assert(prefix.filter(pred)[m] == x);
                } else {
                    assert(x == s.last());
                    assert(s[s.len() - 1] == x);
                }
            } else {
                assert(prefix.filter(pred)[m] == x);
            }
        }
    }
}

/// Filtering keeps the relative order of an ascending sequence: every
/// element of the result comes from the input sequence, in its order.
pub proof fn lemma_filter_keeps_sorted<T>(s: Seq<T>, pred: spec_fn(T) -> bool, key: spec_fn(T) -> int)
    requires
        sorted_by(s, key),
    ensures
        sorted_by(s.filter(pred), key),
        forall|m: int| 0 <= m < s.filter(pred).len()
            ==> exists|j: int| 0 <= j < s.len() && #[trigger] s.filter(pred)[m] == s[j],
    decreases s.len(),
{
    reveal(Seq::filter);
    if s.len() == 0 {
    } else {
        let prefix = s.drop_last();
        assert(sorted_by(prefix, key)) by {
            assert(forall|k: int| 0 <= k < prefix.len() ==> prefix[k] == s[k]);
        }
        lemma_filter_keeps_sorted(prefix, pred, key);
        let f = s.filter(pred);
        let fp = prefix.filter(pred);
        assert forall|m: int| 0 <= m < f.len() implies exists|j: int|
            0 <= j < s.len() && #[trigger] f[m] == s[j] by {
            if pred(s.last()) && m == f.len() - 1 {
                assert(f[m] == s[s.len() - 1]);
            } else {
                assert(f[m] == fp[m]);
                let j = choose|j: int| 0 <= j < prefix.len() && fp[m] == prefix[j];
                assert(f[m] == s[j]);
            }
        }
        assert forall|a: int, b: int| 0 <= a <= b < f.len() implies #[trigger] key(f[a])
            <= #[trigger] key(f[b]) by {
            if pred(s.last()) && b == f.len() - 1 {
                if a < b {
                    let j = choose|j: int| 0 <= j < prefix.len() && fp[a] == prefix[j];
                    assert(f[a] == s[j]);
                    assert(key(s[j]) <= key(s[s.len() - 1]));
                }
            } else {
                assert(key(fp[a]) <= key(fp[b]));
            }
        }
    }
}

/// Every element of a filtered sequence stands somewhere in the input.
pub proof fn lemma_filter_provenance<T>(s: Seq<T>, pred: spec_fn(T) -> bool)
    ensures
        forall|m: int|
            0 <= m < s.filter(pred).len() ==> exists|j: int|
                0 <= j < s.len() && #[trigger] s.filter(pred)[m] == s[j],
    decreases s.len(),
{
    reveal(Seq::filter);
    if s.len() > 0 {
        let prefix = s.drop_last();
        lemma_filter_provenance(prefix, pred);
        let f = s.filter(pred);
        let fp = prefix.filter(pred);
        assert forall|m: int| 0 <= m < f.len() implies exists|j: int|
            0 <= j < s.len() && #[trigger] f[m] == s[j] by {
            if pred(s.last()) && m == f.len() - 1 {
                assert(f[m] == s[s.len() - 1]);
            } else {
                assert(f[m] == fp[m]);
                let j = choose|j: int| 0 <= j < prefix.len() && fp[m] == prefix[j];
                assert(f[m] == s[j]);
            }
        }
    }
}

/// Whether positions `m1 < m2` of `f` appear in `s` at positions in the
/// same order.
pub open spec fn pair_in_order<T>(f: Seq<T>, s: Seq<T>, m1: int, m2: int) -> bool {
    exists|j1: int, j2: int|
        #![auto]
        0 <= j1 < j2 < s.len() && f[m1] == s[j1] && f[m2] == s[j2]
}

/// A filtered catalog keeps the relative order of the catalog it came from:
/// any two elements of the result stand at positions of the input in the
/// same order.
pub proof fn lemma_filter_keeps_relative_order<T>(s: Seq<T>, pred: spec_fn(T) -> bool)
    ensures
        forall|m1: int, m2: int|
            #![trigger pair_in_order(s.filter(pred), s, m1, m2)]
            0 <= m1 < m2 < s.filter(pred).len() ==> pair_in_order(s.filter(pred), s, m1, m2),
    decreases s.len(),
{
    reveal(Seq::filter);
    if s.len() == 0 {
        assert(s.filter(pred).len() == 0);
    } else {
        let prefix = s.drop_last();
        lemma_filter_keeps_relative_order(prefix, pred);
        assert forall|m1: int, m2: int|
            #![trigger pair_in_order(s.filter(pred), s, m1, m2)]
            0 <= m1 < m2 < s.filter(pred).len() implies pair_in_order(
            s.filter(pred),
            s,
            m1,
            m2,
        ) by {
            if pred(s.last()) && m2 == s.filter(pred).len() - 1 {
                lemma_filter_provenance(prefix, pred);
                assert(m1 < prefix.filter(pred).len());
                assert(s.filter(pred)[m1] == prefix.filter(pred)[m1]);
                let j1 = choose|j1: int|
                    0 <= j1 < prefix.len() && prefix.filter(pred)[m1] == prefix[j1];
                assert(s[j1] == prefix[j1]);
                assert(s.filter(pred)[m2] == s[s.len() - 1]);
                assert(0 <= j1 < s.len() - 1 < s.len() && s.filter(pred)[m1] == s[j1]
                    && s.filter(pred)[m2] == s[s.len() - 1]);
            } else {
                assert(s.filter(pred)[m1] == prefix.filter(pred)[m1] && s.filter(pred)[m2]
                    == prefix.filter(pred)[m2]);
                assert(pair_in_order(prefix.filter(pred), prefix, m1, m2));
                let (j1, j2) = choose|j1: int, j2: int|
                    #![auto]
                    0 <= j1 < j2 < prefix.len() && prefix.filter(pred)[m1] == prefix[j1]
                        && prefix.filter(pred)[m2] == prefix[j2];
                assert(s[j1] == prefix[j1] && s[j2] == prefix[j2]);
                assert(0 <= j1 < j2 < s.len() && s.filter(pred)[m1] == s[j1] && s.filter(pred)[m2]
                    == s[j2]);
            }
        }
    }
}

/// Inserts a profile into a priority-ordered catalog at its stable position:
/// after every entry whose priority is at most the new one's, so that ties
/// keep insertion order.
pub fn insert_by_priority<T: CatalogEntry>(v: &mut Vec<T>, p: T)
    ensures
        final(v)@ == stable_insert(old(v)@, p, |t: T| t.priority_spec()),
{
    let ghost key = |t: T| t.priority_spec();
    proof {
        lemma_stable_insert_is_insert_at(v@, p, key);
    }
    let prio = p.priority_value();
    let mut i: usize = 0;
    while i < v.len() && v[i].priority_value() <= prio
        invariant
            0 <= i <= v.len(),
            forall|j: int| 0 <= j < i ==> #[trigger] key(v@[j]) <= key(p),
        decreases v.len() - i,
    {
        i += 1;
    }
    proof {
        let pos = stable_insert_pos(v@, p, key);
        assert(forall|j: int| 0 <= j < pos ==> #[trigger] key(v@[j]) <= key(p));
        if i < pos {
            assert(key(v@[i as int]) <= key(p));
            assert(false);
        }
        if pos < i {
            assert(key(v@[pos]) <= key(p));
            assert(false);
        }
    }
    v.insert(i, p);
}

fn index_of_codename<T: CatalogEntry>(profiles: &Vec<T>, codename: &str) -> (r: Option<usize>)
    ensures
        match r {
            Some(i) => i < profiles@.len() && profiles@[i as int].codename_spec() == codename@
                && forall|j: int| 0 <= j < i ==> profiles@[j].codename_spec() != codename@,
            None => forall|j: int| 0 <= j < profiles@.len()
                ==> profiles@[j].codename_spec() != codename@,
        },
{
    let mut i: usize = 0;
    while i < profiles.len()
        invariant
            0 <= i <= profiles.len(),
            forall|j: int| 0 <= j < i ==> profiles@[j].codename_spec() != codename@,
        decreases profiles.len() - i,
    {
        if profiles[i].codename_is(codename) {
            return Some(i);
        }
        i += 1;
    }
    None
}

/// Selects the first catalog entry carrying the given codename, or reports
/// that none does.
pub fn find_by_codename<T: CatalogEntry>(codename: &str, profiles: Vec<T>) -> (r: Result<
    T,
    CfhdbError,
>)
    ensures
        match r {
            Ok(p) => exists|i: int|
                0 <= i < profiles@.len() && p == profiles@[i]
                    && #[trigger] profiles@[i].codename_spec() == codename@
                    && forall|j: int| 0 <= j < i ==> profiles@[j].codename_spec() != codename@,
            Err(e) => e == CfhdbError::ProfileNotFound && forall|j: int|
                0 <= j < profiles@.len() ==> profiles@[j].codename_spec() != codename@,
        },
{
    match index_of_codename(&profiles, codename) {
        Some(i) => {
            let mut v = profiles;
            let p = v.remove(i);
            proof {
                assert(p == profiles@[i as int]);
            }
            Ok(p)
        },
        None => Err(CfhdbError::ProfileNotFound),
    }
}

} // verus!
