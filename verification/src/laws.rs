//! Laws of the marketplace, proved once and for all states: the exclusivity
//! of the lifecycle states with the exactness of the listed index, and the
//! round trip of renting and returning an asset.

use vstd::prelude::*;

use crate::assoc::{lemma_remove_value_absent, lemma_remove_value_push};
use crate::model::{spec_rentable, MarketModel};
use crate::storage_types::Action;
use crate::NFT_BALANCE;

verus! {

/// In every well-formed state, an asset is in at most one of the `Listed`
/// and `Rented` states, and the listed index holds it exactly when its
/// record is `Listed`.
pub proof fn lemma_listed_rented_exclusive(v: MarketModel, a: u64)
    requires
        v.wf(),
    ensures
        !(v.is_listed(a) && v.is_rented(a)),
        v.listed.contains(a) <==> v.is_listed(a),
{
}

/// Listing an asset, renting it, and ending the rent in good order leaves
/// no record of the asset and restores the marketplace state exactly; the
/// closing custody action carries the asset from the renter back to the
/// original leaser.
pub proof fn lemma_rent_end_rent_round_trip(
    v: MarketModel,
    leaser: u64,
    token: u64,
    price: u128,
    max_duration: u128,
    renter: u64,
    duration: u128,
    now: u128,
)
    requires
        v.wf(),
        v.lease_err(leaser, leaser, token, price, max_duration) is None,
        !v.paused,
        spec_rentable(renter, leaser, duration, max_duration),
        now > 0,
    ensures
        ({
            let v1 = v.lease_next(leaser, token, price, max_duration);
            let v2 = v1.rent_next(renter, token, duration, now);
            &&& v1.rent_err(renter, renter, token, duration) is None
            &&& v2.end_rent_err(renter, renter, token) is None
            &&& !v2.end_rent_next(renter, token).leases.dom().contains(token)
            &&& v2.end_rent_next(renter, token) == v
            &&& v2.end_rent_actions(renter, token) == seq![
                Action::SetAuthorized { token, who: renter, authorized: true },
                Action::Transfer { token, from: renter, to: leaser, amount: NFT_BALANCE },
                Action::SetAuthorized { token, who: leaser, authorized: true },
            ]
        }),
{
    let v1 = v.lease_next(leaser, token, price, max_duration);
    let v2 = v1.rent_next(renter, token, duration, now);
    let v3 = v2.end_rent_next(renter, token);
    assert(!v.leases.dom().contains(token));
    assert(!v.listed.contains(token));
    assert(!v.leased_pairs.contains((leaser, token)));
    assert(!v.rented_pairs.contains((renter, token)));
    assert(v1.rent_err(renter, renter, token, duration) is None);
    assert(v2.end_rent_err(renter, renter, token) is None);
    assert(v3.leases =~= v.leases);
    lemma_remove_value_push(v.listed, token);
    assert(v2.listed == v.listed);
    lemma_remove_value_absent(v.listed, token);
    lemma_remove_value_push(v.leased_pairs, (leaser, token));
    lemma_remove_value_push(v.rented_pairs, (renter, token));
    assert(v3 =~= v);
}

} // verus!
