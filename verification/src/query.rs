//! The filter and lookup layer over a resolved scan.
//!
//! Listing keeps either every instance (verbose) or exactly those whose
//! logs directory shows the primary log file, in scan order; lookup finds
//! the unique instance with an exactly matching name.

use vstd::prelude::*;
use crate::chars::str_eq;
use crate::instance::InstalledInstance;

verus! {

/// The elements of `s` whose flag in `f` is set, in order.
pub open spec fn filter_by_flags(
    s: Seq<InstalledInstance>,
    f: Seq<bool>,
) -> Seq<InstalledInstance>
    decreases s.len(),
{
    if s.len() == 0 {
        Seq::<InstalledInstance>::empty()
    } else if f[s.len() - 1] {
        filter_by_flags(s.drop_last(), f.drop_last()).push(s.last())
    } else {
        filter_by_flags(s.drop_last(), f.drop_last())
    }
}

/// The default listing is contained in the verbose listing: it is never
/// longer, each of its instances occurs in the full scan, it is the whole
/// scan when every flag is set, and it is strictly shorter as soon as one
/// flag is clear.
pub proof fn lemma_filter_by_flags_subset(s: Seq<InstalledInstance>, f: Seq<bool>)
    requires
        f.len() == s.len(),
    ensures
        filter_by_flags(s, f).len() <= s.len(),
        forall|x: InstalledInstance| filter_by_flags(s, f).contains(x) ==> s.contains(x),
        (forall|i: int| 0 <= i < f.len() ==> f[i]) ==> filter_by_flags(s, f) == s,
        (exists|i: int| 0 <= i < f.len() && !f[i]) ==> filter_by_flags(s, f).len() < s.len(),
    decreases s.len(),
{
    if s.len() > 0 {
        lemma_filter_by_flags_subset(s.drop_last(), f.drop_last());
        assert forall|x: InstalledInstance| filter_by_flags(s, f).contains(x) implies s.contains(
            x,
        ) by {
            if f[s.len() - 1] && x == s.last() {
                assert(s[s.len() - 1] == x);
            } else {
                assert(filter_by_flags(s.drop_last(), f.drop_last()).contains(x));
                let i = choose|i: int|
                    0 <= i < filter_by_flags(s.drop_last(), f.drop_last()).len()
                        && filter_by_flags(s.drop_last(), f.drop_last())[i] == x;
                assert(s.drop_last().contains(x));
                let j = choose|j: int| 0 <= j < s.drop_last().len() && s.drop_last()[j] == x;
                assert(s[j] == x);
            }
        }
        if forall|i: int| 0 <= i < f.len() ==> f[i] {
            assert(f[s.len() - 1]);
            assert(forall|i: int| 0 <= i < f.drop_last().len() ==> f.drop_last()[i] == f[i]);
            assert(filter_by_flags(s, f) =~= s);
        }
        if exists|i: int| 0 <= i < f.len() && !f[i] {
            let i = choose|i: int| 0 <= i < f.len() && !f[i];
            if i == s.len() - 1 {
                assert(filter_by_flags(s, f).len() < s.len());
            } else {
                assert(f.drop_last()[i] == f[i]);
                assert(exists|k: int| 0 <= k < f.drop_last().len() && !f.drop_last()[k]);
            }
        }
    }
}

/// All instances when `verbose`, else exactly those whose flag in
/// `has_log` (one per instance, in order, true when `idea.log` exists
/// under the instance's logs directory) is set; scan order is preserved.
pub fn list_instances(instances: Vec<InstalledInstance>, verbose: bool, has_log: &Vec<bool>) -> (r:
    Vec<InstalledInstance>)
    requires
        has_log.len() == instances.len(),
    ensures
        verbose ==> r@ == instances@,
        !verbose ==> r@ == filter_by_flags(instances@, has_log@),
{
    if verbose {
        return instances;
    }
    let ghost orig = instances@;
    let mut rest = instances;
    let mut out: Vec<InstalledInstance> = Vec::new();
    let mut i: usize = 0;
    let n = rest.len();
    proof {
        assert(orig.subrange(0, 0) =~= Seq::<InstalledInstance>::empty());
        assert(has_log@.subrange(0, 0) =~= Seq::<bool>::empty());
        assert(rest@ =~= orig.subrange(0, n as int));
    }
    while i < n
        invariant
            0 <= i <= n,
            n == orig.len(),
            n == has_log.len(),
            rest@ == orig.subrange(i as int, n as int),
            out@ == filter_by_flags(orig.subrange(0, i as int), has_log@.subrange(0, i as int)),
        decreases n - i,
    {
        let ghost pre = rest@;
        let x = rest.remove(0);
        proof {
            assert(x == orig[i as int]);
            assert(pre.remove(0) =~= orig.subrange(i + 1, n as int));
        }
        let ghost pre_s = orig.subrange(0, i as int);
        let ghost pre_f = has_log@.subrange(0, i as int);
        let ghost now_s = orig.subrange(0, i + 1);
        let ghost now_f = has_log@.subrange(0, i + 1);
        proof {
            assert(now_s.drop_last() =~= pre_s);
            assert(now_f.drop_last() =~= pre_f);
            assert(now_s.last() == orig[i as int]);
            assert(now_f[now_s.len() - 1] == has_log@[i as int]);
        }
        if has_log[i] {
            out.push(x);
            proof {
                assert(out@ =~= filter_by_flags(now_s, now_f));
            }
        } else {
            proof {
                assert(out@ =~= filter_by_flags(now_s, now_f));
            }
        }
        i = i + 1;
    }
    proof {
        assert(orig.subrange(0, n as int) =~= orig);
        assert(has_log@.subrange(0, n as int) =~= has_log@);
    }
    out
}

/// The index of the first instance in `s` whose name is exactly `name`.
pub open spec fn find_by_name(s: Seq<InstalledInstance>, name: Seq<char>) -> Option<int>
    decreases s.len(),
{
    if s.len() == 0 {
        None
    } else if s[0].name@ == name {
        Some(0int)
    } else {
        match find_by_name(s.drop_first(), name) {
            Some(i) => Some(i + 1),
            None => None,
        }
    }
}

/// Lookup is exact: nothing is found exactly when no instance bears the
/// queried name, character for character; what is found is the first
/// instance bearing it.
pub proof fn lemma_find_by_name_exact(s: Seq<InstalledInstance>, name: Seq<char>)
    ensures
        (find_by_name(s, name) is None) <==> (forall|i: int|
            0 <= i < s.len() ==> (#[trigger] s[i].name)@ != name),
        find_by_name(s, name) is Some ==> {
            let i = find_by_name(s, name)->0;
            &&& 0 <= i < s.len()
            &&& s[i].name@ == name
            &&& forall|j: int| 0 <= j < i ==> (#[trigger] s[j].name)@ != name
        },
    decreases s.len(),
{
    if s.len() > 0 {
        lemma_find_by_name_exact(s.drop_first(), name);
        assert(forall|j: int| 0 <= j < s.drop_first().len() ==> s.drop_first()[j] == s[j + 1]);
        if s[0].name@ != name {
            if find_by_name(s, name) is None {
                assert forall|i: int| 0 <= i < s.len() implies (#[trigger] s[i].name)@
                    != name by {
                    if i > 0 {
                        assert(s.drop_first()[i - 1] == s[i]);
                    }
                }
            }
            if forall|i: int| 0 <= i < s.len() ==> (#[trigger] s[i].name)@ != name {
                assert forall|i: int|
                    0 <= i < s.drop_first().len() implies (#[trigger] s.drop_first()[i].name)@
                    != name by {
                    assert(s.drop_first()[i] == s[i + 1]);
                }
            }
            if find_by_name(s, name) is Some {
                let i = find_by_name(s.drop_first(), name)->0;
                assert forall|j: int| 0 <= j < i + 1 implies (#[trigger] s[j].name)@ != name by {
                    if j > 0 {
                        assert(s.drop_first()[j - 1] == s[j]);
                    }
                }
            }
        }
    }
}

/// Lookup is idempotent: looking up the name of a found instance finds
/// that same instance again.
pub proof fn lemma_find_by_name_idempotent(s: Seq<InstalledInstance>, name: Seq<char>)
    requires
        find_by_name(s, name) is Some,
    ensures
        find_by_name(s, s[find_by_name(s, name)->0].name@) == find_by_name(s, name),
{
    lemma_find_by_name_exact(s, name);
}

/// The unique instance named exactly `name`, or nothing when no name
/// matches it character for character.
pub fn get_by_name<'a>(instances: &'a Vec<InstalledInstance>, name: &str) -> (r: Option<
    &'a InstalledInstance,
>)
    ensures
        (r is Some) == (find_by_name(instances@, name@) is Some),
        r is Some ==> *r->0 == instances@[find_by_name(instances@, name@)->0],
{
    let n = instances.len();
    let mut i: usize = 0;
    proof {
        assert(instances@.subrange(0, n as int) =~= instances@);
    }
    while i < n
        invariant
            0 <= i <= n,
            n == instances.len(),
            find_by_name(instances@, name@) == match find_by_name(
                instances@.subrange(i as int, n as int),
                name@,
            ) {
                Some(k) => Some(k + i),
                None => None,
            },
        decreases n - i,
    {
        let ghost rest = instances@.subrange(i as int, n as int);
        proof {
            assert(rest[0] == instances@[i as int]);
            assert(rest.drop_first() =~= instances@.subrange(i + 1, n as int));
        }
        if str_eq(instances[i].name.as_str(), name) {
            return Some(&instances[i]);
        }
        i = i + 1;
    }
    proof {
        assert(instances@.subrange(n as int, n as int) =~= Seq::<InstalledInstance>::empty());
    }
    None
}

} // verus!
