//! The lease store and the directory indices, as plain vectors: one record
//! per asset, the listed assets in insertion order, and the per-user index
//! pairs. Every helper's contract speaks of the abstract map or sequence
//! the vector stands for.

use vstd::prelude::*;

use crate::assoc::{
    assets_of, assoc_map, has_key, lemma_assoc_map_dom, lemma_assoc_map_push,
    lemma_assoc_map_remove, lemma_assoc_map_val, lemma_remove_value_absent,
    lemma_remove_value_via_index, lemma_unique_keys_push, unique_keys,
};
use crate::storage_types::LeasingRenting;

verus! {

/// Creates or replaces the record under `token`.
pub fn write_lease(leases: &mut Vec<(u64, LeasingRenting)>, token: u64, lease: LeasingRenting)
    requires
        unique_keys(old(leases)@),
    ensures
        unique_keys(final(leases)@),
        assoc_map(final(leases)@) == assoc_map(old(leases)@).insert(token, lease),
{
    let ghost s0 = leases@;
    let mut i: usize = 0;
    while i < leases.len()
        invariant
            s0 == old(leases)@,
            leases@ == s0,
            0 <= i <= s0.len(),
            unique_keys(s0),
            forall|j: int| 0 <= j < i ==> (#[trigger] s0[j]).0 != token,
        decreases s0.len() - i,
    {
        if leases[i].0 == token {
            proof {
                lemma_assoc_map_remove(s0, i as int, token);
            }
            leases.remove(i);
            proof {
                lemma_assoc_map_push(leases@, token, lease);
                lemma_unique_keys_push(leases@, token, lease);
            }
            leases.push((token, lease));
            proof {
                assert(assoc_map(leases@) =~= assoc_map(s0).insert(token, lease));
            }
            return ;
        }
        i += 1;
    }
    proof {
        assert(!has_key(s0, token));
        lemma_assoc_map_push(s0, token, lease);
        lemma_unique_keys_push(s0, token, lease);
    }
    leases.push((token, lease));
}

/// The record under `token`, or `None` when the asset is not managed.
pub fn load_lease(leases: &Vec<(u64, LeasingRenting)>, token: u64) -> (r: Option<LeasingRenting>)
    requires
        unique_keys(leases@),
    ensures
        r == (if assoc_map(leases@).dom().contains(token) {
            Some(assoc_map(leases@)[token])
        } else {
            None::<LeasingRenting>
        }),
{
    let mut i: usize = 0;
    while i < leases.len()
        invariant
            0 <= i <= leases@.len(),
            unique_keys(leases@),
            forall|j: int| 0 <= j < i ==> (#[trigger] leases@[j]).0 != token,
        decreases leases@.len() - i,
    {
        if leases[i].0 == token {
            proof {
                lemma_assoc_map_val(leases@, i as int, token);
            }
            return Some(leases[i].1);
        }
        i += 1;
    }
    proof {
        assert(!has_key(leases@, token));
        lemma_assoc_map_dom(leases@, token);
    }
    None
}

/// Whether a record exists under `token`.
pub fn has_lease(leases: &Vec<(u64, LeasingRenting)>, token: u64) -> (found: bool)
    ensures
        found == assoc_map(leases@).dom().contains(token),
{
    let mut i: usize = 0;
    while i < leases.len()
        invariant
            0 <= i <= leases@.len(),
            forall|j: int| 0 <= j < i ==> (#[trigger] leases@[j]).0 != token,
        decreases leases@.len() - i,
    {
        if leases[i].0 == token {
            proof {
                lemma_assoc_map_dom(leases@, token);
            }
            return true;
        }
        i += 1;
    }
    proof {
        assert(!has_key(leases@, token));
        lemma_assoc_map_dom(leases@, token);
    }
    false
}

/// Deletes the record under `token`, if any; says whether one was there.
pub fn remove_lease(leases: &mut Vec<(u64, LeasingRenting)>, token: u64) -> (removed: bool)
    requires
        unique_keys(old(leases)@),
    ensures
        unique_keys(final(leases)@),
        assoc_map(final(leases)@) == assoc_map(old(leases)@).remove(token),
        removed == assoc_map(old(leases)@).dom().contains(token),
{
    let ghost s0 = leases@;
    let mut i: usize = 0;
    while i < leases.len()
        invariant
            s0 == old(leases)@,
            leases@ == s0,
            0 <= i <= s0.len(),
            unique_keys(s0),
            forall|j: int| 0 <= j < i ==> (#[trigger] s0[j]).0 != token,
        decreases s0.len() - i,
    {
        if leases[i].0 == token {
            proof {
                lemma_assoc_map_remove(s0, i as int, token);
                lemma_assoc_map_dom(s0, token);
            }
            leases.remove(i);
            return true;
        }
        i += 1;
    }
    proof {
        assert(!has_key(s0, token));
        lemma_assoc_map_dom(s0, token);
        assert(assoc_map(s0).remove(token) =~= assoc_map(s0));
    }
    false
}

/// Adds `token` to the listed index unless already there; idempotent.
pub fn add_all_listed(list: &mut Vec<u64>, token: u64) -> (added: bool)
    ensures
        added == !old(list)@.contains(token),
        final(list)@ == (if old(list)@.contains(token) {
            old(list)@
        } else {
            old(list)@.push(token)
        }),
{
    let ghost s0 = list@;
    let mut i: usize = 0;
    while i < list.len()
        invariant
            s0 == old(list)@,
            list@ == s0,
            0 <= i <= s0.len(),
            forall|j: int| 0 <= j < i ==> s0[j] != token,
        decreases s0.len() - i,
    {
        if list[i] == token {
            return false;
        }
        i += 1;
    }
    proof {
        if s0.contains(token) {
            let j = choose|j: int| 0 <= j < s0.len() && s0[j] == token;
            assert(s0[j] != token);
        }
    }
    list.push(token);
    true
}

/// Removes the first occurrence of `token` from the listed index, if any.
pub fn remove_all_listed(list: &mut Vec<u64>, token: u64) -> (removed: bool)
    ensures
        removed == old(list)@.contains(token),
        final(list)@ == old(list)@.remove_value(token),
{
    let ghost s0 = list@;
    let mut i: usize = 0;
    while i < list.len()
        invariant
            s0 == old(list)@,
            list@ == s0,
            0 <= i <= s0.len(),
            forall|j: int| 0 <= j < i ==> s0[j] != token,
        decreases s0.len() - i,
    {
        if list[i] == token {
            proof {
                lemma_remove_value_via_index(s0, i as int, token);
            }
            list.remove(i);
            return true;
        }
        i += 1;
    }
    proof {
        if s0.contains(token) {
            let j = choose|j: int| 0 <= j < s0.len() && s0[j] == token;
            assert(s0[j] != token);
        }
        lemma_remove_value_absent(s0, token);
    }
    false
}

/// Adds the pair `(leaser, token)` to the leased-by index unless already
/// there; idempotent.
pub fn add_leased_by_user(pairs: &mut Vec<(u64, u64)>, leaser: u64, token: u64) -> (added: bool)
    ensures
        added == !old(pairs)@.contains((leaser, token)),
        final(pairs)@ == (if old(pairs)@.contains((leaser, token)) {
            old(pairs)@
        } else {
            old(pairs)@.push((leaser, token))
        }),
{
    let ghost s0 = pairs@;
    let mut i: usize = 0;
    while i < pairs.len()
        invariant
            s0 == old(pairs)@,
            pairs@ == s0,
            0 <= i <= s0.len(),
            forall|j: int| 0 <= j < i ==> s0[j] != (leaser, token),
        decreases s0.len() - i,
    {
        if pairs[i].0 == leaser && pairs[i].1 == token {
            return false;
        }
        i += 1;
    }
    proof {
        if s0.contains((leaser, token)) {
            let j = choose|j: int| 0 <= j < s0.len() && s0[j] == (leaser, token);
            assert(s0[j] != (leaser, token));
        }
    }
    pairs.push((leaser, token));
    true
}

/// Removes the first occurrence of `(leaser, token)` from the leased-by
/// index, if any.
pub fn remove_leased_by_user(pairs: &mut Vec<(u64, u64)>, leaser: u64, token: u64) -> (removed:
    bool)
    ensures
        removed == old(pairs)@.contains((leaser, token)),
        final(pairs)@ == old(pairs)@.remove_value((leaser, token)),
{
    let ghost s0 = pairs@;
    let mut i: usize = 0;
    while i < pairs.len()
        invariant
            s0 == old(pairs)@,
            pairs@ == s0,
            0 <= i <= s0.len(),
            forall|j: int| 0 <= j < i ==> s0[j] != (leaser, token),
        decreases s0.len() - i,
    {
        if pairs[i].0 == leaser && pairs[i].1 == token {
            proof {
                lemma_remove_value_via_index(s0, i as int, (leaser, token));
            }
            pairs.remove(i);
            return true;
        }
        i += 1;
    }
    proof {
        if s0.contains((leaser, token)) {
            let j = choose|j: int| 0 <= j < s0.len() && s0[j] == (leaser, token);
            assert(s0[j] != (leaser, token));
        }
        lemma_remove_value_absent(s0, (leaser, token));
    }
    false
}

/// The assets leased by `leaser`, in insertion order.
pub fn get_leased_by_user(pairs: &Vec<(u64, u64)>, leaser: u64) -> (r: Vec<u64>)
    ensures
        r@ == assets_of(pairs@, leaser),
{
    collect_assets(pairs, leaser)
}

/// Adds the pair `(renter, token)` to the rented-by index unless already
/// there; idempotent.
pub fn add_rented_by_user(pairs: &mut Vec<(u64, u64)>, renter: u64, token: u64) -> (added: bool)
    ensures
        added == !old(pairs)@.contains((renter, token)),
        final(pairs)@ == (if old(pairs)@.contains((renter, token)) {
            old(pairs)@
        } else {
            old(pairs)@.push((renter, token))
        }),
{
    add_leased_by_user(pairs, renter, token)
}

/// Removes the first occurrence of `(renter, token)` from the rented-by
/// index, if any.
pub fn remove_rented_by_user(pairs: &mut Vec<(u64, u64)>, renter: u64, token: u64) -> (removed:
    bool)
    ensures
        removed == old(pairs)@.contains((renter, token)),
        final(pairs)@ == old(pairs)@.remove_value((renter, token)),
{
    remove_leased_by_user(pairs, renter, token)
}

/// The assets rented by `renter`, in insertion order.
pub fn get_rented_by_user(pairs: &Vec<(u64, u64)>, renter: u64) -> (r: Vec<u64>)
    ensures
        r@ == assets_of(pairs@, renter),
{
    collect_assets(pairs, renter)
}

/// Walks a user index and gathers the assets recorded for `user`.
fn collect_assets(pairs: &Vec<(u64, u64)>, user: u64) -> (r: Vec<u64>)
    ensures
        r@ == assets_of(pairs@, user),
{
    let mut r: Vec<u64> = Vec::new();
    let mut i: usize = 0;
    while i < pairs.len()
        invariant
            0 <= i <= pairs@.len(),
            r@ == assets_of(pairs@.take(i as int), user),
        decreases pairs@.len() - i,
    {
        proof {
            let t = pairs@.take(i as int + 1);
            assert(t.drop_last() =~= pairs@.take(i as int));
            assert(t.last() == pairs@[i as int]);
        }
        if pairs[i].0 == user {
            r.push(pairs[i].1);
        }
        i += 1;
    }
    proof {
        assert(pairs@.take(pairs@.len() as int) =~= pairs@);
    }
    r
}

} // verus!
