//! The mathematical model of the marketplace: its state, the invariants
//! that hold after every completed operation, the guards that gate each
//! lifecycle transition, and the transitions themselves.

use vstd::prelude::*;

use crate::storage_types::{Action, Error, LeaseState, Leasing, LeasingRenting, Renting};
use crate::{spec_total_price, NFT_BALANCE, SECONDS_IN_DAYS};

verus! {

broadcast use vstd::seq_lib::group_seq_properties;

/// True iff the listing terms are acceptable: a positive price per day and
/// a positive maximum duration. (Asset-kind gating is reserved; every asset
/// is accepted.)
pub open spec fn spec_leaseable(price: u128, duration: u128) -> bool {
    price > 0 && duration > 0
}

/// True iff a rental request is acceptable: not a self-rental, a positive
/// whole-day duration, and within the listing's maximum.
pub open spec fn spec_rentable(renter: u64, leaser: u64, duration: u128, max_duration: u128) -> bool {
    &&& renter != leaser
    &&& duration > 0
    &&& duration % SECONDS_IN_DAYS == 0
    &&& duration <= max_duration
}

/// True iff the contracted rental period has fully elapsed at `now`. A
/// rental that lies in the future (`rented_at > now`) is never claimable:
/// it cannot arise from correct operation and is answered defensively.
pub open spec fn spec_claimable(now: u128, rented_at: u128, rent_duration: u128) -> bool {
    rented_at <= now && now - rented_at >= rent_duration
}

/// The marketplace state, seen abstractly: the instance configuration, the
/// per-asset lease records, and the three directory indices. The indices
/// are ordered (insertion order is kept for queries) but their order means
/// nothing to the state machine.
#[verifier::ext_equal]
pub ghost struct MarketModel {
    /// The administrator, once `initialize` has run.
    pub admin: Option<u64>,
    /// The token rents are paid in, once `initialize` has run.
    pub payment_token: Option<u64>,
    /// While true, no new rental is accepted; running ones wind down.
    pub paused: bool,
    /// The lease records, one per managed asset.
    pub leases: Map<u64, LeasingRenting>,
    /// Every asset whose record is in the `Listed` state.
    pub listed: Seq<u64>,
    /// A pair `(p, a)` for every managed asset `a` whose leaser is `p`.
    pub leased_pairs: Seq<(u64, u64)>,
    /// A pair `(p, a)` for every rented asset `a` whose renter is `p`.
    pub rented_pairs: Seq<(u64, u64)>,
}

impl MarketModel {
    /// The state before any operation: nothing configured, nothing managed.
    pub open spec fn init() -> MarketModel {
        MarketModel {
            admin: None,
            payment_token: None,
            paused: false,
            leases: Map::empty(),
            listed: Seq::empty(),
            leased_pairs: Seq::empty(),
            rented_pairs: Seq::empty(),
        }
    }

    /// A record for asset `a` exists and is in the `Listed` state.
    pub open spec fn is_listed(self, a: u64) -> bool {
        self.leases.dom().contains(a) && self.leases[a].state is Listed
    }

    /// A record for asset `a` exists and is in the `Rented` state.
    pub open spec fn is_rented(self, a: u64) -> bool {
        self.leases.dom().contains(a) && self.leases[a].state is Rented
    }

    /// What every single record satisfies: a rented record names a real
    /// renter, a real start and a positive duration; a listed record has no
    /// active rental; a nonzero duration is whole days within the maximum.
    pub open spec fn record_ok(r: LeasingRenting) -> bool {
        &&& r.state is Rented ==> {
            &&& r.renting.renter != r.leasing.leaser
            &&& r.renting.rent_duration > 0
            &&& r.renting.rented_at > 0
        }
        &&& r.state is Listed ==> r.renting.rent_duration == 0 && r.renting.rented_at == 0
        &&& r.renting.rent_duration != 0 ==> {
            &&& r.renting.rent_duration % SECONDS_IN_DAYS == 0
            &&& r.renting.rent_duration <= r.leasing.max_duration
        }
    }

    /// The invariant that holds after every completed operation: every
    /// record is sound, the indices hold no duplicates, and each index
    /// holds exactly what the records say it should.
    pub open spec fn wf(self) -> bool {
        &&& self.listed.no_duplicates()
        &&& self.leased_pairs.no_duplicates()
        &&& self.rented_pairs.no_duplicates()
        &&& forall|a: u64| #[trigger]
            self.leases.dom().contains(a) ==> Self::record_ok(self.leases[a])
        &&& forall|a: u64| #[trigger] self.listed.contains(a) <==> self.is_listed(a)
        &&& forall|p: (u64, u64)| #[trigger]
            self.leased_pairs.contains(p) <==> self.leases.dom().contains(p.1)
                && self.leases[p.1].leasing.leaser == p.0
        &&& forall|p: (u64, u64)| #[trigger]
            self.rented_pairs.contains(p) <==> self.is_rented(p.1)
                && self.leases[p.1].renting.renter == p.0
    }

    /// Why `lease` would be rejected, or `None` when it goes through:
    /// the authorization must cover the leaser, the asset must not be under
    /// management yet, and the terms must be acceptable.
    pub open spec fn lease_err(
        self,
        auth: u64,
        leaser: u64,
        token: u64,
        price: u128,
        duration: u128,
    ) -> Option<Error> {
        if auth != leaser {
            Some(Error::Unauthorized)
        } else if self.leases.dom().contains(token) {
            Some(Error::AlreadyListed)
        } else if !spec_leaseable(price, duration) {
            Some(Error::NotLeaseable)
        } else {
            None
        }
    }

    /// The record `lease` creates: listed, with the leaser standing in as
    /// the sentinel "no renter" and no active rental.
    pub open spec fn listed_record(leaser: u64, price: u128, max_duration: u128) -> LeasingRenting {
        LeasingRenting {
            leasing: Leasing { leaser, max_duration, price },
            renting: Renting { renter: leaser, rent_duration: 0, rented_at: 0 },
            state: LeaseState::Listed,
        }
    }

    /// The state after a successful `lease`.
    pub open spec fn lease_next(self, leaser: u64, token: u64, price: u128, duration: u128) -> MarketModel {
        MarketModel {
            leases: self.leases.insert(token, Self::listed_record(leaser, price, duration)),
            listed: self.listed.push(token),
            leased_pairs: self.leased_pairs.push((leaser, token)),
            ..self
        }
    }

    /// What the host performs for a successful `lease`: freeze the asset in
    /// the leaser's hands so it cannot be moved elsewhere while listed.
    pub open spec fn lease_actions(leaser: u64, token: u64) -> Seq<Action> {
        seq![Action::SetAuthorized { token, who: leaser, authorized: false }]
    }

    /// Why `rent` would be rejected, or `None` when it goes through: the
    /// authorization must cover the renter, rentals must not be paused, a
    /// listed record must exist, and the request must be acceptable.
    pub open spec fn rent_err(self, auth: u64, renter: u64, token: u64, duration: u128) -> Option<
        Error,
    > {
        if auth != renter {
            Some(Error::Unauthorized)
        } else if self.paused {
            Some(Error::Paused)
        } else if !self.leases.dom().contains(token) {
            Some(Error::NoSuchLease)
        } else if !(self.leases[token].state is Listed) {
            Some(Error::WrongState)
        } else if !spec_rentable(
            renter,
            self.leases[token].leasing.leaser,
            duration,
            self.leases[token].leasing.max_duration,
        ) {
            Some(Error::NotRentable)
        } else {
            None
        }
    }

    /// The state after a successful `rent` that began at `now`.
    pub open spec fn rent_next(self, renter: u64, token: u64, duration: u128, now: u128) -> MarketModel {
        let r = LeasingRenting {
            leasing: self.leases[token].leasing,
            renting: Renting { renter, rent_duration: duration, rented_at: now },
            state: LeaseState::Rented,
        };
        MarketModel {
            leases: self.leases.insert(token, r),
            listed: self.listed.remove_value(token),
            rented_pairs: self.rented_pairs.push((renter, token)),
            ..self
        }
    }

    /// What the host performs for a successful `rent`, in order: move the
    /// full payment from the renter to the leaser, let the leaser hand the
    /// asset over, move it, then freeze it in the renter's hands.
    pub open spec fn rent_actions(self, renter: u64, token: u64, duration: u128) -> Seq<Action> {
        let leaser = self.leases[token].leasing.leaser;
        seq![
            Action::Transfer {
                token: self.payment_token->Some_0,
                from: renter,
                to: leaser,
                amount: spec_total_price(duration, self.leases[token].leasing.price) as u128,
            },
            Action::SetAuthorized { token, who: leaser, authorized: true },
            Action::Transfer { token, from: leaser, to: renter, amount: NFT_BALANCE },
            Action::SetAuthorized { token, who: renter, authorized: false },
        ]
    }

    /// Why `end_lease` would be rejected, or `None` when it goes through:
    /// the authorization must cover the leaser, who must be the listing's
    /// owner, and the asset must be listed and unrented.
    pub open spec fn end_lease_err(self, auth: u64, leaser: u64, token: u64) -> Option<Error> {
        if auth != leaser {
            Some(Error::Unauthorized)
        } else if !self.leases.dom().contains(token) {
            Some(Error::NoSuchLease)
        } else if self.leases[token].leasing.leaser != leaser {
            Some(Error::Unauthorized)
        } else if !(self.leases[token].state is Listed) {
            Some(Error::WrongState)
        } else {
            None
        }
    }

    /// The state after a successful `end_lease`: the record is gone and the
    /// asset leaves every index.
    pub open spec fn end_lease_next(self, leaser: u64, token: u64) -> MarketModel {
        MarketModel {
            leases: self.leases.remove(token),
            listed: self.listed.remove_value(token),
            leased_pairs: self.leased_pairs.remove_value((leaser, token)),
            ..self
        }
    }

    /// What the host performs for a successful `end_lease`: give the leaser
    /// back the free right to move the asset.
    pub open spec fn end_lease_actions(leaser: u64, token: u64) -> Seq<Action> {
        seq![Action::SetAuthorized { token, who: leaser, authorized: true }]
    }

    /// Why `end_rent` would be rejected, or `None` when it goes through:
    /// the authorization must cover the renter, the asset must be rented,
    /// and the renter must be the one renting it.
    pub open spec fn end_rent_err(self, auth: u64, renter: u64, token: u64) -> Option<Error> {
        if auth != renter {
            Some(Error::Unauthorized)
        } else if !self.leases.dom().contains(token) {
            Some(Error::NoSuchLease)
        } else if !(self.leases[token].state is Rented) {
            Some(Error::WrongState)
        } else if self.leases[token].renting.renter != renter {
            Some(Error::Unauthorized)
        } else {
            None
        }
    }

    /// The state after a successful `end_rent`: the record is gone and the
    /// asset leaves every index.
    pub open spec fn end_rent_next(self, renter: u64, token: u64) -> MarketModel {
        let leaser = self.leases[token].leasing.leaser;
        MarketModel {
            leases: self.leases.remove(token),
            listed: self.listed.remove_value(token),
            leased_pairs: self.leased_pairs.remove_value((leaser, token)),
            rented_pairs: self.rented_pairs.remove_value((renter, token)),
            ..self
        }
    }

    /// What the host performs for a successful `end_rent`, in order: let
    /// the renter hand the asset back, move it to the leaser, and restore
    /// the leaser's free right to move it.
    pub open spec fn end_rent_actions(self, renter: u64, token: u64) -> Seq<Action> {
        let leaser = self.leases[token].leasing.leaser;
        seq![
            Action::SetAuthorized { token, who: renter, authorized: true },
            Action::Transfer { token, from: renter, to: leaser, amount: NFT_BALANCE },
            Action::SetAuthorized { token, who: leaser, authorized: true },
        ]
    }

    /// Why `claim_token` would be rejected, or `None` when it goes through:
    /// the authorization must cover the leaser, who must be the listing's
    /// owner, the asset must be rented, and the rental must have elapsed.
    pub open spec fn claim_err(self, auth: u64, leaser: u64, token: u64, now: u128) -> Option<
        Error,
    > {
        if auth != leaser {
            Some(Error::Unauthorized)
        } else if !self.leases.dom().contains(token) {
            Some(Error::NoSuchLease)
        } else if self.leases[token].leasing.leaser != leaser {
            Some(Error::Unauthorized)
        } else if !(self.leases[token].state is Rented) {
            Some(Error::WrongState)
        } else if !spec_claimable(
            now,
            self.leases[token].renting.rented_at,
            self.leases[token].renting.rent_duration,
        ) {
            Some(Error::NotYetClaimable)
        } else {
            None
        }
    }

    /// The state after a successful `claim_token`. With `relist` the record
    /// goes back to `Listed` with no active rental and the asset rejoins
    /// the listed index; without it the record is gone. Either way the
    /// asset leaves the renter's index.
    pub open spec fn claim_next(self, leaser: u64, token: u64, relist: bool) -> MarketModel {
        let r0 = self.leases[token];
        let renter = r0.renting.renter;
        if relist {
            let r = LeasingRenting {
                leasing: r0.leasing,
                renting: Renting { renter, rent_duration: 0, rented_at: 0 },
                state: LeaseState::Listed,
            };
            MarketModel {
                leases: self.leases.insert(token, r),
                listed: self.listed.push(token),
                rented_pairs: self.rented_pairs.remove_value((renter, token)),
                ..self
            }
        } else {
            MarketModel {
                leases: self.leases.remove(token),
                listed: self.listed.remove_value(token),
                leased_pairs: self.leased_pairs.remove_value((leaser, token)),
                rented_pairs: self.rented_pairs.remove_value((renter, token)),
                ..self
            }
        }
    }

    /// What the host performs for a successful `claim_token`, in order: let
    /// the overdue renter's asset move, move it back to the leaser, then
    /// freeze it again when relisting or free it when not.
    pub open spec fn claim_actions(self, token: u64, relist: bool) -> Seq<Action> {
        let r0 = self.leases[token];
        seq![
            Action::SetAuthorized { token, who: r0.renting.renter, authorized: true },
            Action::Transfer {
                token,
                from: r0.renting.renter,
                to: r0.leasing.leaser,
                amount: NFT_BALANCE,
            },
            Action::SetAuthorized { token, who: r0.leasing.leaser, authorized: !relist },
        ]
    }

    /// A successful `lease` keeps the invariant.
    pub proof fn lemma_lease_next_wf(self, leaser: u64, token: u64, price: u128, duration: u128)
        requires
            self.wf(),
            !self.leases.dom().contains(token),
            spec_leaseable(price, duration),
        ensures
            self.lease_next(leaser, token, price, duration).wf(),
    {
        let w = self.lease_next(leaser, token, price, duration);
        assert(!self.listed.contains(token));
        crate::assoc::lemma_push_no_duplicates(self.listed, token);
        assert(!self.leased_pairs.contains((leaser, token)));
        crate::assoc::lemma_push_no_duplicates(self.leased_pairs, (leaser, token));
        assert forall|a: u64| #[trigger] w.listed.contains(a) <==> w.is_listed(a) by {
            assert(w.listed.contains(a) <==> a == token || self.listed.contains(a));
        }
        assert forall|p: (u64, u64)| #[trigger]
            w.leased_pairs.contains(p) <==> w.leases.dom().contains(p.1)
                && w.leases[p.1].leasing.leaser == p.0 by {
            assert(w.leased_pairs.contains(p) <==> p == (leaser, token)
                || self.leased_pairs.contains(p));
        }
        assert forall|p: (u64, u64)| #[trigger]
            w.rented_pairs.contains(p) <==> w.is_rented(p.1)
                && w.leases[p.1].renting.renter == p.0 by {
            if p.1 == token {
                assert(!self.rented_pairs.contains(p));
            }
        }
    }

    /// A successful `rent` that begins at a positive `now` keeps the
    /// invariant.
    pub proof fn lemma_rent_next_wf(self, renter: u64, token: u64, duration: u128, now: u128)
        requires
            self.wf(),
            self.leases.dom().contains(token),
            self.leases[token].state is Listed,
            spec_rentable(
                renter,
                self.leases[token].leasing.leaser,
                duration,
                self.leases[token].leasing.max_duration,
            ),
            now > 0,
        ensures
            self.rent_next(renter, token, duration, now).wf(),
    {
        let w = self.rent_next(renter, token, duration, now);
        crate::assoc::lemma_remove_value_membership(self.listed, token);
        assert(!self.rented_pairs.contains((renter, token)));
        crate::assoc::lemma_push_no_duplicates(self.rented_pairs, (renter, token));
        assert forall|a: u64| #[trigger] w.listed.contains(a) <==> w.is_listed(a) by {
            assert(w.listed.contains(a) <==> self.listed.contains(a) && a != token);
        }
        assert forall|p: (u64, u64)| #[trigger]
            w.leased_pairs.contains(p) <==> w.leases.dom().contains(p.1)
                && w.leases[p.1].leasing.leaser == p.0 by {}
        assert forall|p: (u64, u64)| #[trigger]
            w.rented_pairs.contains(p) <==> w.is_rented(p.1)
                && w.leases[p.1].renting.renter == p.0 by {
            assert(w.rented_pairs.contains(p) <==> p == (renter, token)
                || self.rented_pairs.contains(p));
            if p.1 == token && p != (renter, token) {
                assert(!self.rented_pairs.contains(p));
            }
        }
    }

    /// A successful `end_lease` keeps the invariant.
    pub proof fn lemma_end_lease_next_wf(self, leaser: u64, token: u64)
        requires
            self.wf(),
            self.leases.dom().contains(token),
            self.leases[token].leasing.leaser == leaser,
            self.leases[token].state is Listed,
        ensures
            self.end_lease_next(leaser, token).wf(),
    {
        let w = self.end_lease_next(leaser, token);
        crate::assoc::lemma_remove_value_membership(self.listed, token);
        crate::assoc::lemma_remove_value_membership(self.leased_pairs, (leaser, token));
        assert forall|a: u64| #[trigger] w.listed.contains(a) <==> w.is_listed(a) by {
            assert(w.listed.contains(a) <==> self.listed.contains(a) && a != token);
        }
        assert forall|p: (u64, u64)| #[trigger]
            w.leased_pairs.contains(p) <==> w.leases.dom().contains(p.1)
                && w.leases[p.1].leasing.leaser == p.0 by {
            assert(w.leased_pairs.contains(p) <==> self.leased_pairs.contains(p) && p != (
            leaser,
            token,
            ));
            if p.1 == token && p != (leaser, token) {
                assert(!self.leased_pairs.contains(p));
            }
        }
        assert forall|p: (u64, u64)| #[trigger]
            w.rented_pairs.contains(p) <==> w.is_rented(p.1)
                && w.leases[p.1].renting.renter == p.0 by {
            if p.1 == token {
                assert(!self.rented_pairs.contains(p));
            }
        }
    }

    /// A successful `end_rent` keeps the invariant.
    pub proof fn lemma_end_rent_next_wf(self, renter: u64, token: u64)
        requires
            self.wf(),
            self.leases.dom().contains(token),
            self.leases[token].state is Rented,
            self.leases[token].renting.renter == renter,
        ensures
            self.end_rent_next(renter, token).wf(),
    {
        let w = self.end_rent_next(renter, token);
        let leaser = self.leases[token].leasing.leaser;
        crate::assoc::lemma_remove_value_membership(self.listed, token);
        crate::assoc::lemma_remove_value_membership(self.leased_pairs, (leaser, token));
        crate::assoc::lemma_remove_value_membership(self.rented_pairs, (renter, token));
        assert forall|a: u64| #[trigger] w.listed.contains(a) <==> w.is_listed(a) by {
            assert(w.listed.contains(a) <==> self.listed.contains(a) && a != token);
        }
        assert forall|p: (u64, u64)| #[trigger]
            w.leased_pairs.contains(p) <==> w.leases.dom().contains(p.1)
                && w.leases[p.1].leasing.leaser == p.0 by {
            assert(w.leased_pairs.contains(p) <==> self.leased_pairs.contains(p) && p != (
            leaser,
            token,
            ));
            if p.1 == token && p != (leaser, token) {
                assert(!self.leased_pairs.contains(p));
            }
        }
        assert forall|p: (u64, u64)| #[trigger]
            w.rented_pairs.contains(p) <==> w.is_rented(p.1)
                && w.leases[p.1].renting.renter == p.0 by {
            assert(w.rented_pairs.contains(p) <==> self.rented_pairs.contains(p) && p != (
            renter,
            token,
            ));
            if p.1 == token && p != (renter, token) {
                assert(!self.rented_pairs.contains(p));
            }
        }
    }

    /// A successful `claim_token`, with or without relisting, keeps the
    /// invariant.
    pub proof fn lemma_claim_next_wf(self, leaser: u64, token: u64, relist: bool)
        requires
            self.wf(),
            self.leases.dom().contains(token),
            self.leases[token].leasing.leaser == leaser,
            self.leases[token].state is Rented,
        ensures
            self.claim_next(leaser, token, relist).wf(),
    {
        let w = self.claim_next(leaser, token, relist);
        let renter = self.leases[token].renting.renter;
        crate::assoc::lemma_remove_value_membership(self.rented_pairs, (renter, token));
        if relist {
            assert(!self.listed.contains(token));
            crate::assoc::lemma_push_no_duplicates(self.listed, token);
            assert forall|a: u64| #[trigger] w.listed.contains(a) <==> w.is_listed(a) by {
                assert(w.listed.contains(a) <==> a == token || self.listed.contains(a));
            }
            assert forall|p: (u64, u64)| #[trigger]
                w.leased_pairs.contains(p) <==> w.leases.dom().contains(p.1)
                    && w.leases[p.1].leasing.leaser == p.0 by {}
            assert forall|p: (u64, u64)| #[trigger]
                w.rented_pairs.contains(p) <==> w.is_rented(p.1)
                    && w.leases[p.1].renting.renter == p.0 by {
                assert(w.rented_pairs.contains(p) <==> self.rented_pairs.contains(p) && p != (
                renter,
                token,
                ));
                if p.1 == token && p != (renter, token) {
                    assert(!self.rented_pairs.contains(p));
                }
            }
        } else {
            crate::assoc::lemma_remove_value_membership(self.listed, token);
            crate::assoc::lemma_remove_value_membership(self.leased_pairs, (leaser, token));
            assert forall|a: u64| #[trigger] w.listed.contains(a) <==> w.is_listed(a) by {
                assert(w.listed.contains(a) <==> self.listed.contains(a) && a != token);
            }
            assert forall|p: (u64, u64)| #[trigger]
                w.leased_pairs.contains(p) <==> w.leases.dom().contains(p.1)
                    && w.leases[p.1].leasing.leaser == p.0 by {
                assert(w.leased_pairs.contains(p) <==> self.leased_pairs.contains(p) && p != (
                leaser,
                token,
                ));
                if p.1 == token && p != (leaser, token) {
                    assert(!self.leased_pairs.contains(p));
                }
            }
            assert forall|p: (u64, u64)| #[trigger]
                w.rented_pairs.contains(p) <==> w.is_rented(p.1)
                    && w.leases[p.1].renting.renter == p.0 by {
                assert(w.rented_pairs.contains(p) <==> self.rented_pairs.contains(p) && p != (
                renter,
                token,
                ));
                if p.1 == token && p != (renter, token) {
                    assert(!self.rented_pairs.contains(p));
                }
            }
        }
    }
}

} // verus!
