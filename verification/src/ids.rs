//! Identifiers in ascending order.

use std::collections::HashMap;
use vstd::prelude::*;
use vstd::std_specs::iter::IteratorSpec;

verus! {

broadcast use vstd::std_specs::hash::group_hash_axioms;

pub open spec fn ascending(s: Seq<u32>) -> bool {
    forall|i: int, j: int| 0 <= i < j < s.len() ==> s[i] < s[j]
}

/// `s` lists the members of `ids` in ascending order.
pub open spec fn lists(s: Seq<u32>, ids: Set<u32>) -> bool {
    &&& ascending(s)
    &&& forall|x: u32| ids.contains(x) <==> s.contains(x)
}

/// The members of a set in ascending order.
pub open spec fn in_order(ids: Set<u32>) -> Seq<u32> {
    choose|s: Seq<u32>| lists(s, ids)
}

/// A set has one list.
pub proof fn list_is_unique(a: Seq<u32>, b: Seq<u32>, ids: Set<u32>)
    requires
        lists(a, ids),
        lists(b, ids),
    ensures
        a == b,
    decreases a.len(),
{
    if a.len() == 0 {
        if b.len() > 0 {
            assert(b.contains(b[0]));
            assert(a.contains(b[0]));
        }
        assert(a =~= b);
    } else {
        assert(a.contains(a.last()));
        assert(b.contains(a.last()));
        assert(b.contains(b.last()));
        assert(a.contains(b.last()));
        let i = choose|i: int| 0 <= i < a.len() && a[i] == b.last();
        let j = choose|j: int| 0 <= j < b.len() && b[j] == a.last();
        assert(a.last() == b.last());
        let rest = ids.remove(a.last());
        list_drops_last(a, ids);
        list_drops_last(b, ids);
        list_is_unique(a.drop_last(), b.drop_last(), rest);
        assert(a =~= a.drop_last().push(a.last()));
        assert(b =~= b.drop_last().push(b.last()));
    }
}

proof fn list_drops_last(s: Seq<u32>, ids: Set<u32>)
    requires
        lists(s, ids),
        s.len() > 0,
    ensures
        lists(s.drop_last(), ids.remove(s.last())),
{
    let d = s.drop_last();
    assert forall|x: u32| ids.remove(s.last()).contains(x) <==> d.contains(x) by {
        if ids.remove(s.last()).contains(x) {
            let i = choose|i: int| 0 <= i < s.len() && s[i] == x;
            assert(d[i] == x);
        }
        if d.contains(x) {
            let i = choose|i: int| 0 <= i < d.len() && d[i] == x;
            assert(s[i] == x);
            assert(s.contains(x));
        }
    }
}

proof fn list_exists_below(ids: Set<u32>, bound: int) -> (s: Seq<u32>)
    requires
        0 <= bound,
    ensures
        ascending(s),
        forall|x: u32| ids.contains(x) && x < bound <==> s.contains(x),
    decreases bound,
{
    if bound == 0 {
        Seq::empty()
    } else {
        let rest = list_exists_below(ids, bound - 1);
        let x = (bound - 1) as u32;
        if bound - 1 <= u32::MAX && ids.contains(x) {
            let s = rest.push(x);
            assert forall|y: u32| ids.contains(y) && y < bound <==> s.contains(y) by {
                if y < x && ids.contains(y) {
                    let i = choose|i: int| 0 <= i < rest.len() && rest[i] == y;
                    assert(s[i] == y);
                }
                if y == x {
                    assert(s[rest.len() as int] == y);
                }
                if s.contains(y) && y != x {
                    let i = choose|i: int| 0 <= i < s.len() && s[i] == y;
                    assert(rest[i] == y);
                }
            }
            assert forall|i: int, j: int| 0 <= i < j < s.len() implies s[i] < s[j] by {
                assert(rest.contains(rest[i]));
            }
            s
        } else {
            rest
        }
    }
}

/// Every set of identifiers has a list.
pub proof fn list_exists(ids: Set<u32>)
    ensures
        lists(in_order(ids), ids),
{
    let s = list_exists_below(ids, u32::MAX + 1);
    assert(lists(s, ids));
}

/// The list of a set is the one that was found.
pub proof fn listed(s: Seq<u32>, ids: Set<u32>)
    requires
        lists(s, ids),
    ensures
        in_order(ids) == s,
{
    list_is_unique(in_order(ids), s, ids);
}

/// Adds `x` to an ascending list that lacks it.
fn insert_ascending(list: &mut Vec<u32>, x: u32)
    requires
        ascending(old(list)@),
        !old(list)@.contains(x),
    ensures
        ascending(final(list)@),
        forall|y: u32| final(list)@.contains(y) <==> old(list)@.contains(y) || y == x,
{
    let ghost before = list@;
    let mut at: usize = 0;
    while at < list.len() && list[at] < x
        invariant
            at <= list@.len(),
            list@ == before,
            forall|j: int| 0 <= j < at ==> #[trigger] list@[j] < x,
        ensures
            at <= list@.len(),
            forall|j: int| 0 <= j < at ==> #[trigger] list@[j] < x,
            at < list@.len() ==> list@[at as int] >= x,
        decreases list@.len() - at,
    {
        at += 1;
    }
    list.insert(at, x);
    proof {
        let after = list@;
        assert forall|i: int, j: int| 0 <= i < j < after.len() implies after[i] < after[j] by {
            if at < before.len() {
                assert(before.contains(before[at as int]));
                assert(before[at as int] > x);
            }
            let bi = if i < at { i } else { i - 1 };
            let bj = if j < at { j } else { j - 1 };
            if i != at {
                assert(after[i] == before[bi]);
            }
            if j != at {
                assert(after[j] == before[bj]);
            }
        }
        assert forall|y: u32| after.contains(y) <==> before.contains(y) || y == x by {
            if before.contains(y) {
                let i = choose|i: int| 0 <= i < before.len() && before[i] == y;
                let k = if i < at { i } else { i + 1 };
                assert(after[k] == y);
            }
            if y == x {
                assert(after[at as int] == y);
            }
            if after.contains(y) && y != x {
                let k = choose|k: int| 0 <= k < after.len() && after[k] == y;
                let i = if k < at { k } else { k - 1 };
                assert(before[i] == y);
            }
        }
    }
}

/// The keys of a map in ascending order.
pub fn sorted_keys<V>(m: &HashMap<u32, V>) -> (r: Vec<u32>)
    ensures
        lists(r@, m@.dom()),
        r@ == in_order(m@.dom()),
{
    let mut r: Vec<u32> = Vec::new();
    for k in it: m.keys()
        invariant
            ascending(r@),
            it.seq().unref().to_set() == m@.dom(),
            it.seq().no_duplicates(),
            forall|x: u32|
                r@.contains(x) <==> exists|j: int| 0 <= j < it.index() && *it.seq()[j] == x,
    {
        let ghost n = it.index();
        let ghost keys = it.seq();
        assert(!r@.contains(*k)) by {
            if r@.contains(*k) {
                let j = choose|j: int| 0 <= j < n && *keys[j] == *k;
                assert(keys[j] == keys[n as int]);
            }
        }
        let ghost before = r@;
        insert_ascending(&mut r, *k);
        assert forall|x: u32| r@.contains(x) implies exists|j: int|
            0 <= j < n + 1 && *keys[j] == x by {
            if x == *k {
                assert(*keys[n as int] == x);
            } else {
                let j = choose|j: int| 0 <= j < n && *keys[j] == x;
                assert(0 <= j < n + 1);
            }
        }
        assert forall|x: u32|
            (exists|j: int| 0 <= j < n + 1 && *keys[j] == x) implies r@.contains(x) by {
            let j = choose|j: int| 0 <= j < n + 1 && *keys[j] == x;
            if j < n {
                assert(before.contains(x));
            }
        }
    }
    proof {
        let keys = m.keys().remaining();
        assert forall|x: u32| m@.dom().contains(x) <==> r@.contains(x) by {
            let u = keys.unref();
            if m@.dom().contains(x) {
                assert(u.to_set().contains(x));
                let j = choose|j: int| 0 <= j < u.len() && u[j] == x;
                assert(*keys[j] == x);
            }
            if r@.contains(x) {
                let j = choose|j: int| 0 <= j < keys.len() && *keys[j] == x;
                assert(u[j] == x);
                assert(u.contains(x));
            }
        }
        listed(r@, m@.dom());
    }
    r
}

} // verus!
