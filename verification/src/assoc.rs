//! Sequence and association-list groundwork: the map an association list
//! stands for, first-occurrence removal, and the lemmas the store and the
//! directory indices are verified with.

use vstd::prelude::*;

use crate::storage_types::LeasingRenting;

verus! {

broadcast use vstd::seq_lib::group_seq_properties;

/// True when some entry of the association list carries the key `k`.
pub open spec fn has_key(s: Seq<(u64, LeasingRenting)>, k: u64) -> bool {
    exists|i: int| 0 <= i < s.len() && (#[trigger] s[i]).0 == k
}

/// True when no key appears twice among the entries.
pub open spec fn unique_keys(s: Seq<(u64, LeasingRenting)>) -> bool {
    forall|i: int, j: int| 0 <= i < j < s.len() ==> (#[trigger] s[i]).0 != (#[trigger] s[j]).0
}

/// The finite map an association list stands for; were a key repeated, the
/// later entry would win (well-formed lists never repeat one).
pub open spec fn assoc_map(s: Seq<(u64, LeasingRenting)>) -> Map<u64, LeasingRenting>
    decreases s.len(),
{
    if s.len() == 0 {
        Map::empty()
    } else {
        assoc_map(s.drop_last()).insert(s.last().0, s.last().1)
    }
}

/// The keys of the map are exactly the keys of the entries.
pub proof fn lemma_assoc_map_dom(s: Seq<(u64, LeasingRenting)>, k: u64)
    ensures
        assoc_map(s).dom().contains(k) <==> has_key(s, k),
    decreases s.len(),
{
    if s.len() == 0 {
        assert(!has_key(s, k));
    } else {
        lemma_assoc_map_dom(s.drop_last(), k);
        if s.last().0 == k {
            assert(s[s.len() - 1].0 == k);
        } else {
            if has_key(s, k) {
                let i = choose|i: int| 0 <= i < s.len() && (#[trigger] s[i]).0 == k;
                assert(s.drop_last()[i] == s[i]);
            }
            if has_key(s.drop_last(), k) {
                let i = choose|i: int|
                    0 <= i < s.drop_last().len() && (#[trigger] s.drop_last()[i]).0 == k;
                assert(s[i].0 == k);
            }
        }
    }
}

/// Under unique keys, the entry at any index gives the map's value at its key.
pub proof fn lemma_assoc_map_val(s: Seq<(u64, LeasingRenting)>, i: int, k: u64)
    requires
        unique_keys(s),
        0 <= i < s.len(),
        s[i].0 == k,
    ensures
        assoc_map(s).dom().contains(k),
        assoc_map(s)[k] == s[i].1,
    decreases s.len(),
{
    if i == s.len() - 1 {
    } else {
        assert(s.drop_last()[i] == s[i]);
        assert(unique_keys(s.drop_last())) by {
            assert forall|a: int, b: int|
                0 <= a < b < s.drop_last().len() implies (#[trigger] s.drop_last()[a]).0 != (
            #[trigger] s.drop_last()[b]).0 by {
                assert(s.drop_last()[a] == s[a]);
                assert(s.drop_last()[b] == s[b]);
            }
        }
        lemma_assoc_map_val(s.drop_last(), i, k);
        assert(s.last().0 != k);
    }
}

/// Pushing an entry is inserting its pair into the map.
pub proof fn lemma_assoc_map_push(s: Seq<(u64, LeasingRenting)>, k: u64, v: LeasingRenting)
    ensures
        assoc_map(s.push((k, v))) == assoc_map(s).insert(k, v),
{
    let t = s.push((k, v));
    assert(t.drop_last() =~= s);
    assert(t.last() == (k, v));
}

/// Under unique keys, removing the entry at a key's index is removing the
/// key from the map; the rest keeps its keys unique and loses the key.
pub proof fn lemma_assoc_map_remove(s: Seq<(u64, LeasingRenting)>, i: int, k: u64)
    requires
        unique_keys(s),
        0 <= i < s.len(),
        s[i].0 == k,
    ensures
        assoc_map(s.remove(i)) == assoc_map(s).remove(k),
        unique_keys(s.remove(i)),
        !has_key(s.remove(i), k),
    decreases s.len(),
{
    let r = s.remove(i);
    s.remove_ensures(i);
    assert(unique_keys(r)) by {
        assert forall|a: int, b: int| 0 <= a < b < r.len() implies (#[trigger] r[a]).0 != (
        #[trigger] r[b]).0 by {
            let sa: int = if a < i { a } else { a + 1 };
            let sb: int = if b < i { b } else { b + 1 };
            assert(r[a] == s[sa]);
            assert(r[b] == s[sb]);
        }
    }
    assert(!has_key(r, k)) by {
        if has_key(r, k) {
            let a = choose|a: int| 0 <= a < r.len() && (#[trigger] r[a]).0 == k;
            let sa: int = if a < i { a } else { a + 1 };
            assert(r[a] == s[sa]);
            assert(sa != i);
        }
    }
    if i == s.len() - 1 {
        assert(r =~= s.drop_last());
        assert(!has_key(s.drop_last(), k)) by {
            if has_key(s.drop_last(), k) {
                let a = choose|a: int|
                    0 <= a < s.drop_last().len() && (#[trigger] s.drop_last()[a]).0 == k;
                assert(s.drop_last()[a] == s[a]);
            }
        }
        lemma_assoc_map_dom(s.drop_last(), k);
        assert(assoc_map(s.drop_last()) =~= assoc_map(s).remove(k));
    } else {
        let d = s.drop_last();
        assert(unique_keys(d)) by {
            assert forall|a: int, b: int| 0 <= a < b < d.len() implies (#[trigger] d[a]).0 != (
            #[trigger] d[b]).0 by {
                assert(d[a] == s[a]);
                assert(d[b] == s[b]);
            }
        }
        assert(d[i] == s[i]);
        lemma_assoc_map_remove(d, i, k);
        assert(r.last() == s.last());
        assert(r.drop_last() =~= d.remove(i)) by {
            d.remove_ensures(i);
        }
        let lk = s.last().0;
        let lv = s.last().1;
        assert(lk != k);
        assert(assoc_map(r) == assoc_map(d).remove(k).insert(lk, lv));
        assert(assoc_map(d).remove(k).insert(lk, lv) =~= assoc_map(d).insert(lk, lv).remove(k));
    }
}

/// Removing a value that is not there changes nothing.
pub proof fn lemma_remove_value_absent<A>(s: Seq<A>, x: A)
    requires
        !s.contains(x),
    ensures
        s.remove_value(x) == s,
{
    s.index_of_first_ensures(x);
}

/// Removing a value just pushed, and absent before, undoes the push.
pub proof fn lemma_remove_value_push<A>(s: Seq<A>, x: A)
    requires
        !s.contains(x),
    ensures
        s.push(x).remove_value(x) == s,
{
    let t = s.push(x);
    t.index_of_first_ensures(x);
    assert(t[s.len() as int] == x);
    let i = t.index_of_first(x)->Some_0;
    if i < s.len() {
        assert(t[i] == s[i]);
    }
    assert(i == s.len());
    t.remove_ensures(i);
    assert(t.remove(i) =~= s);
}

/// What removing a value means for membership, length and distinctness,
/// for a sequence without duplicates.
pub proof fn lemma_remove_value_membership<A>(s: Seq<A>, x: A)
    requires
        s.no_duplicates(),
    ensures
        s.remove_value(x).no_duplicates(),
        forall|y: A| s.remove_value(x).contains(y) <==> (s.contains(y) && y != x),
        s.remove_value(x).len() == if s.contains(x) {
            s.len() - 1
        } else {
            s.len() as int
        },
{
    s.index_of_first_ensures(x);
    match s.index_of_first(x) {
        Some(i) => {
            let r = s.remove(i);
            s.remove_ensures(i);
            assert(r.no_duplicates()) by {
                assert forall|a: int, b: int|
                    0 <= a < b < r.len() implies #[trigger] r[a] != #[trigger] r[b] by {
                    let sa: int = if a < i { a } else { a + 1 };
                    let sb: int = if b < i { b } else { b + 1 };
                    assert(r[a] == s[sa]);
                    assert(r[b] == s[sb]);
                }
            }
            assert forall|y: A| r.contains(y) <==> (s.contains(y) && y != x) by {
                if r.contains(y) {
                    let a = choose|a: int| 0 <= a < r.len() && r[a] == y;
                    let sa: int = if a < i { a } else { a + 1 };
                    assert(r[a] == s[sa]);
                    assert(s.contains(y));
                    if y == x {
                        assert(s[sa] == s[i]);
                        assert(sa != i);
                    }
                }
                if s.contains(y) && y != x {
                    let sa = choose|sa: int| 0 <= sa < s.len() && s[sa] == y;
                    assert(sa != i);
                    let a: int = if sa < i { sa } else { sa - 1 };
                    assert(r[a] == s[sa]);
                    assert(r.contains(y));
                }
            }
        },
        None => {
            assert forall|y: A| s.remove_value(x).contains(y) <==> (s.contains(y) && y != x) by {
                if y == x {
                    assert(!s.contains(x));
                }
            }
        },
    }
}

/// The first index found by a left-to-right scan pins `remove_value` down.
pub proof fn lemma_remove_value_via_index<A>(s: Seq<A>, i: int, x: A)
    requires
        0 <= i < s.len(),
        s[i] == x,
        forall|j: int| 0 <= j < i ==> s[j] != x,
    ensures
        s.remove_value(x) == s.remove(i),
{
    s.index_of_first_ensures(x);
    assert(s.contains(x));
    let f = s.index_of_first(x)->Some_0;
    assert(s[f] == x);
    if f < i {
        assert(s[f] != x);
    }
    if i < f {
        assert(s[i] != x);
    }
}

/// Pushing a fresh element keeps a sequence duplicate-free.
pub proof fn lemma_push_no_duplicates<A>(s: Seq<A>, x: A)
    requires
        s.no_duplicates(),
        !s.contains(x),
    ensures
        s.push(x).no_duplicates(),
{
    let t = s.push(x);
    assert forall|a: int, b: int|
        0 <= a < b < t.len() implies #[trigger] t[a] != #[trigger] t[b] by {
        if b < s.len() {
            assert(t[a] == s[a] && t[b] == s[b]);
        } else {
            assert(t[a] == s[a] && t[b] == x);
            assert(s.contains(s[a]));
        }
    }
}

/// Pushing an entry with a fresh key keeps the keys unique.
pub proof fn lemma_unique_keys_push(s: Seq<(u64, LeasingRenting)>, k: u64, v: LeasingRenting)
    requires
        unique_keys(s),
        !has_key(s, k),
    ensures
        unique_keys(s.push((k, v))),
{
    let t = s.push((k, v));
    assert forall|a: int, b: int| 0 <= a < b < t.len() implies (#[trigger] t[a]).0 != (
    #[trigger] t[b]).0 by {
        if b < s.len() {
            assert(t[a] == s[a] && t[b] == s[b]);
        } else {
            assert(t[a] == s[a] && t[b] == (k, v));
        }
    }
}

/// The assets a user's index pairs name, in order.
pub open spec fn assets_of(pairs: Seq<(u64, u64)>, user: u64) -> Seq<u64>
    decreases pairs.len(),
{
    if pairs.len() == 0 {
        Seq::empty()
    } else {
        let rest = assets_of(pairs.drop_last(), user);
        if pairs.last().0 == user {
            rest.push(pairs.last().1)
        } else {
            rest
        }
    }
}

} // verus!
