//! The lease lifecycle controller: the marketplace state, its queries, and
//! the operations `lease`, `rent`, `end_lease`, `end_rent` and
//! `claim_token`, each verified against the model's transitions.

use vstd::prelude::*;

use crate::assoc::{
    assets_of, assoc_map, lemma_assoc_map_dom, lemma_assoc_map_val, unique_keys,
};
use crate::lease;
use crate::model::{spec_claimable, spec_leaseable, spec_rentable, MarketModel};
use crate::storage_types::{
    Action, AuthContext, Error, LeaseState, Leasing, LeasingRenting, Renting,
};
use crate::{calculate_total_price, spec_total_price, NFT_BALANCE, SECONDS_IN_DAYS};

verus! {

/// Asset-kind gating, reserved for future use: every asset is accepted.
fn is_nft(_leaser: u64, _token: u64) -> (r: bool)
    ensures
        r,
{
    true
}

/// Whether listing terms are acceptable: positive price, positive maximum
/// duration, and an accepted asset kind.
pub fn is_leaseable(leaser: u64, token: u64, _price: u128, _duration: u128) -> (r: bool)
    ensures
        r == spec_leaseable(_price, _duration),
{
    if _price <= 0 || _duration <= 0 {
        return false;
    }
    if !is_nft(leaser, token) {
        return false;
    }
    true
}

/// Whether a rental request is acceptable: no self-rental, a positive
/// whole-day duration, and within the listing's maximum.
pub fn is_rentable(renter: u64, leaser: u64, _duration: u128, max_duration: u128) -> (r: bool)
    ensures
        r == spec_rentable(renter, leaser, _duration, max_duration),
{
    if renter == leaser {
        return false;
    }
    if _duration <= 0 || _duration % SECONDS_IN_DAYS != 0 {
        return false;
    }
    if _duration > max_duration {
        return false;
    }
    true
}

/// Whether the contracted rental period has fully elapsed at `now`. A
/// start in the future is answered with `false`, defensively.
pub fn is_claimable(now: u128, rented_at: u128, rent_duration: u128) -> (r: bool)
    ensures
        r == spec_claimable(now, rented_at, rent_duration),
{
    if rented_at > now {
        return false;
    }
    if now - rented_at < rent_duration {
        return false;
    }
    true
}

/// Whether `x` occurs in the vector.
fn contains_u64(v: &Vec<u64>, x: u64) -> (r: bool)
    ensures
        r == v@.contains(x),
{
    let mut i: usize = 0;
    while i < v.len()
        invariant
            0 <= i <= v@.len(),
            forall|j: int| 0 <= j < i ==> v@[j] != x,
        decreases v@.len() - i,
    {
        if v[i] == x {
            return true;
        }
        i += 1;
    }
    proof {
        if v@.contains(x) {
            let j = choose|j: int| 0 <= j < v@.len() && v@[j] == x;
            assert(v@[j] != x);
        }
    }
    false
}

/// Whether the pair `(a, b)` occurs in the vector.
fn contains_pair(v: &Vec<(u64, u64)>, a: u64, b: u64) -> (r: bool)
    ensures
        r == v@.contains((a, b)),
{
    let mut i: usize = 0;
    while i < v.len()
        invariant
            0 <= i <= v@.len(),
            forall|j: int| 0 <= j < i ==> v@[j] != (a, b),
        decreases v@.len() - i,
    {
        if v[i].0 == a && v[i].1 == b {
            return true;
        }
        i += 1;
    }
    proof {
        if v@.contains((a, b)) {
            let j = choose|j: int| 0 <= j < v@.len() && v@[j] == (a, b);
            assert(v@[j] != (a, b));
        }
    }
    false
}

/// Whether no record key repeats.
fn check_unique_keys(records: &Vec<(u64, LeasingRenting)>) -> (r: bool)
    ensures
        r == unique_keys(records@),
{
    let mut i: usize = 0;
    while i < records.len()
        invariant
            0 <= i <= records@.len(),
            forall|a: int, b: int| 0 <= a < b < i ==> (#[trigger] records@[a]).0 != (
            #[trigger] records@[b]).0,
        decreases records@.len() - i,
    {
        let mut j: usize = 0;
        while j < i
            invariant
                0 <= j <= i < records@.len(),
                forall|a: int, b: int| 0 <= a < b < i ==> (#[trigger] records@[a]).0 != (
                #[trigger] records@[b]).0,
                forall|a: int| 0 <= a < j ==> (#[trigger] records@[a]).0 != records@[i as int].0,
            decreases i - j,
        {
            if records[j].0 == records[i].0 {
                return false;
            }
            j += 1;
        }
        i += 1;
    }
    true
}

/// Whether no element of the vector repeats.
fn check_no_dups_u64(v: &Vec<u64>) -> (r: bool)
    ensures
        r == v@.no_duplicates(),
{
    let mut i: usize = 0;
    while i < v.len()
        invariant
            0 <= i <= v@.len(),
            forall|a: int, b: int| 0 <= a < b < i ==> v@[a] != v@[b],
        decreases v@.len() - i,
    {
        let mut j: usize = 0;
        while j < i
            invariant
                0 <= j <= i < v@.len(),
                forall|a: int, b: int| 0 <= a < b < i ==> v@[a] != v@[b],
                forall|a: int| 0 <= a < j ==> v@[a] != v@[i as int],
            decreases i - j,
        {
            if v[j] == v[i] {
                return false;
            }
            j += 1;
        }
        i += 1;
    }
    true
}

/// Whether no pair of the vector repeats.
fn check_no_dups_pairs(v: &Vec<(u64, u64)>) -> (r: bool)
    ensures
        r == v@.no_duplicates(),
{
    let mut i: usize = 0;
    while i < v.len()
        invariant
            0 <= i <= v@.len(),
            forall|a: int, b: int| 0 <= a < b < i ==> v@[a] != v@[b],
        decreases v@.len() - i,
    {
        let mut j: usize = 0;
        while j < i
            invariant
                0 <= j <= i < v@.len(),
                forall|a: int, b: int| 0 <= a < b < i ==> v@[a] != v@[b],
                forall|a: int| 0 <= a < j ==> v@[a] != v@[i as int],
            decreases i - j,
        {
            if v[j].0 == v[i].0 && v[j].1 == v[i].1 {
                return false;
            }
            j += 1;
        }
        i += 1;
    }
    true
}

/// The abstract state that stored parts stand for: the records as a map,
/// the indices as they are.
pub open spec fn parts_model(
    admin: Option<u64>,
    payment_token: Option<u64>,
    paused: bool,
    records: Seq<(u64, LeasingRenting)>,
    listed: Seq<u64>,
    leased: Seq<(u64, u64)>,
    rented: Seq<(u64, u64)>,
) -> MarketModel {
    MarketModel {
        admin,
        payment_token,
        paused,
        leases: assoc_map(records),
        listed,
        leased_pairs: leased,
        rented_pairs: rented,
    }
}

/// A listed-index entry names a record in the `Listed` state.
spec fn listed_entry_ok(records: Seq<(u64, LeasingRenting)>, a: u64) -> bool {
    assoc_map(records).dom().contains(a) && assoc_map(records)[a].state is Listed
}

/// A leased-by entry names a record whose leaser is the entry's user.
spec fn leased_entry_ok(records: Seq<(u64, LeasingRenting)>, p: (u64, u64)) -> bool {
    assoc_map(records).dom().contains(p.1) && assoc_map(records)[p.1].leasing.leaser == p.0
}

/// A rented-by entry names a rented record whose renter is the entry's
/// user.
spec fn rented_entry_ok(records: Seq<(u64, LeasingRenting)>, p: (u64, u64)) -> bool {
    &&& assoc_map(records).dom().contains(p.1)
    &&& assoc_map(records)[p.1].state is Rented
    &&& assoc_map(records)[p.1].renting.renter == p.0
}

/// Whether one record is internally sound (`MarketModel::record_ok`).
fn record_ok_exec(rec: LeasingRenting) -> (r: bool)
    ensures
        r == MarketModel::record_ok(rec),
{
    let rented_ok = match rec.state {
        LeaseState::Rented => rec.renting.renter != rec.leasing.leaser
            && rec.renting.rent_duration > 0 && rec.renting.rented_at > 0,
        LeaseState::Listed => true,
    };
    let listed_ok = match rec.state {
        LeaseState::Listed => rec.renting.rent_duration == 0 && rec.renting.rented_at == 0,
        LeaseState::Rented => true,
    };
    let dur_ok = rec.renting.rent_duration == 0 || (rec.renting.rent_duration % SECONDS_IN_DAYS
        == 0 && rec.renting.rent_duration <= rec.leasing.max_duration);
    rented_ok && listed_ok && dur_ok
}

/// Whether every stored record is internally sound.
fn check_records_ok(records: &Vec<(u64, LeasingRenting)>) -> (r: bool)
    ensures
        r == (forall|i: int|
            0 <= i < records@.len() ==> MarketModel::record_ok((#[trigger] records@[i]).1)),
{
    let mut i: usize = 0;
    while i < records.len()
        invariant
            0 <= i <= records@.len(),
            forall|j: int| 0 <= j < i ==> MarketModel::record_ok((#[trigger] records@[j]).1),
        decreases records@.len() - i,
    {
        if !record_ok_exec(records[i].1) {
            return false;
        }
        i += 1;
    }
    true
}

/// Whether every listed-index entry names a listed record.
fn check_listed_entries(records: &Vec<(u64, LeasingRenting)>, listed: &Vec<u64>) -> (r: bool)
    requires
        unique_keys(records@),
    ensures
        r == (forall|k: int|
            0 <= k < listed@.len() ==> listed_entry_ok(records@, #[trigger] listed@[k])),
{
    let mut k: usize = 0;
    while k < listed.len()
        invariant
            0 <= k <= listed@.len(),
            unique_keys(records@),
            forall|j: int| 0 <= j < k ==> listed_entry_ok(records@, #[trigger] listed@[j]),
        decreases listed@.len() - k,
    {
        match lease::load_lease(records, listed[k]) {
            Some(rec) => {
                if rec.state != LeaseState::Listed {
                    return false;
                }
            },
            None => {
                return false;
            },
        }
        k += 1;
    }
    true
}

/// Whether every listed record stands in the listed index.
fn check_listed_complete(records: &Vec<(u64, LeasingRenting)>, listed: &Vec<u64>) -> (r: bool)
    ensures
        r == (forall|i: int|
            0 <= i < records@.len() ==> ((#[trigger] records@[i]).1.state is Listed
                ==> listed@.contains(records@[i].0))),
{
    let mut i: usize = 0;
    while i < records.len()
        invariant
            0 <= i <= records@.len(),
            forall|j: int|
                0 <= j < i ==> ((#[trigger] records@[j]).1.state is Listed ==> listed@.contains(
                    records@[j].0,
                )),
        decreases records@.len() - i,
    {
        let is_listed = match records[i].1.state {
            LeaseState::Listed => true,
            LeaseState::Rented => false,
        };
        if is_listed && !contains_u64(listed, records[i].0) {
            return false;
        }
        i += 1;
    }
    true
}

/// Whether every leased-by entry names a record of its user.
fn check_leased_entries(records: &Vec<(u64, LeasingRenting)>, leased: &Vec<(u64, u64)>) -> (r:
    bool)
    requires
        unique_keys(records@),
    ensures
        r == (forall|k: int|
            0 <= k < leased@.len() ==> leased_entry_ok(records@, #[trigger] leased@[k])),
{
    let mut k: usize = 0;
    while k < leased.len()
        invariant
            0 <= k <= leased@.len(),
            unique_keys(records@),
            forall|j: int| 0 <= j < k ==> leased_entry_ok(records@, #[trigger] leased@[j]),
        decreases leased@.len() - k,
    {
        match lease::load_lease(records, leased[k].1) {
            Some(rec) => {
                if rec.leasing.leaser != leased[k].0 {
                    return false;
                }
            },
            None => {
                return false;
            },
        }
        k += 1;
    }
    true
}

/// Whether every record stands in its leaser's index.
fn check_leased_complete(records: &Vec<(u64, LeasingRenting)>, leased: &Vec<(u64, u64)>) -> (r:
    bool)
    ensures
        r == (forall|i: int|
            0 <= i < records@.len() ==> leased@.contains(
                (((#[trigger] records@[i]).1.leasing.leaser, records@[i].0)),
            )),
{
    let mut i: usize = 0;
    while i < records.len()
        invariant
            0 <= i <= records@.len(),
            forall|j: int|
                0 <= j < i ==> leased@.contains(
                    (((#[trigger] records@[j]).1.leasing.leaser, records@[j].0)),
                ),
        decreases records@.len() - i,
    {
        if !contains_pair(leased, records[i].1.leasing.leaser, records[i].0) {
            return false;
        }
        i += 1;
    }
    true
}

/// Whether every rented-by entry names a rented record of its user.
fn check_rented_entries(records: &Vec<(u64, LeasingRenting)>, rented: &Vec<(u64, u64)>) -> (r:
    bool)
    requires
        unique_keys(records@),
    ensures
        r == (forall|k: int|
            0 <= k < rented@.len() ==> rented_entry_ok(records@, #[trigger] rented@[k])),
{
    let mut k: usize = 0;
    while k < rented.len()
        invariant
            0 <= k <= rented@.len(),
            unique_keys(records@),
            forall|j: int| 0 <= j < k ==> rented_entry_ok(records@, #[trigger] rented@[j]),
        decreases rented@.len() - k,
    {
        match lease::load_lease(records, rented[k].1) {
            Some(rec) => {
                let is_rented = match rec.state {
                    LeaseState::Rented => true,
                    LeaseState::Listed => false,
                };
                if !is_rented || rec.renting.renter != rented[k].0 {
                    return false;
                }
            },
            None => {
                return false;
            },
        }
        k += 1;
    }
    true
}

/// Whether every rented record stands in its renter's index.
fn check_rented_complete(records: &Vec<(u64, LeasingRenting)>, rented: &Vec<(u64, u64)>) -> (r:
    bool)
    ensures
        r == (forall|i: int|
            0 <= i < records@.len() ==> ((#[trigger] records@[i]).1.state is Rented
                ==> rented@.contains((records@[i].1.renting.renter, records@[i].0)))),
{
    let mut i: usize = 0;
    while i < records.len()
        invariant
            0 <= i <= records@.len(),
            forall|j: int|
                0 <= j < i ==> ((#[trigger] records@[j]).1.state is Rented ==> rented@.contains(
                    (records@[j].1.renting.renter, records@[j].0),
                )),
        decreases records@.len() - i,
    {
        let is_rented = match records[i].1.state {
            LeaseState::Rented => true,
            LeaseState::Listed => false,
        };
        if is_rented && !contains_pair(rented, records[i].1.renting.renter, records[i].0) {
            return false;
        }
        i += 1;
    }
    true
}

/// A plain copy of an index's pairs.
fn copy_pairs(v: &Vec<(u64, u64)>) -> (r: Vec<(u64, u64)>)
    ensures
        r@ == v@,
{
    let mut r: Vec<(u64, u64)> = Vec::new();
    let mut i: usize = 0;
    while i < v.len()
        invariant
            0 <= i <= v@.len(),
            r@ == v@.take(i as int),
        decreases v@.len() - i,
    {
        r.push(v[i]);
        proof {
            assert(v@.take(i as int + 1) =~= v@.take(i as int).push(v@[i as int]));
        }
        i += 1;
    }
    proof {
        assert(v@.take(v@.len() as int) =~= v@);
    }
    r
}

/// The marketplace: instance configuration, the lease store, and the three
/// directory indices. Its abstract state is a `MarketModel`; every
/// operation's contract is stated over that model.
pub struct SetLien {
    admin: Option<u64>,
    payment_token: Option<u64>,
    paused: bool,
    leases: Vec<(u64, LeasingRenting)>,
    all_listed: Vec<u64>,
    leased_by: Vec<(u64, u64)>,
    rented_by: Vec<(u64, u64)>,
}

impl View for SetLien {
    type V = MarketModel;

    closed spec fn view(&self) -> MarketModel {
        MarketModel {
            admin: self.admin,
            payment_token: self.payment_token,
            paused: self.paused,
            leases: assoc_map(self.leases@),
            listed: self.all_listed@,
            leased_pairs: self.leased_by@,
            rented_pairs: self.rented_by@,
        }
    }
}

impl SetLien {
    /// Well-formed: record keys are unique in the store and the abstract
    /// state satisfies the marketplace invariant (`MarketModel::wf`).
    pub closed spec fn wf(self) -> bool {
        unique_keys(self.leases@) && self@.wf()
    }

    /// The marketplace invariant holds of the abstract state of every
    /// well-formed marketplace.
    pub proof fn lemma_wf_model(self)
        requires
            self.wf(),
        ensures
            self@.wf(),
    {
    }

    /// A fresh marketplace: nothing configured, nothing managed.
    pub fn new() -> (r: SetLien)
        ensures
            r.wf(),
            r@ == MarketModel::init(),
    {
        let r = SetLien {
            admin: None,
            payment_token: None,
            paused: false,
            leases: Vec::new(),
            all_listed: Vec::new(),
            leased_by: Vec::new(),
            rented_by: Vec::new(),
        };
        proof {
            assert(r@ =~= MarketModel::init());
        }
        r
    }

    /// Rebuilds a marketplace from stored parts, checking every invariant:
    /// the persistence port's way back in. Returns `None`, and accepts
    /// nothing, exactly when the parts do not satisfy the marketplace
    /// invariant; otherwise the result's abstract state is the parts'.
    pub fn from_parts(
        admin: Option<u64>,
        payment_token: Option<u64>,
        paused: bool,
        records: Vec<(u64, LeasingRenting)>,
        listed: Vec<u64>,
        leased: Vec<(u64, u64)>,
        rented: Vec<(u64, u64)>,
    ) -> (r: Option<SetLien>)
        ensures
            ({
                let m = parts_model(
                    admin,
                    payment_token,
                    paused,
                    records@,
                    listed@,
                    leased@,
                    rented@,
                );
                if unique_keys(records@) && m.wf() {
                    r matches Some(s) && s.wf() && s@ == m
                } else {
                    r is None
                }
            }),
    {
        let ghost m = parts_model(admin, payment_token, paused, records@, listed@, leased@, rented@);
        if !check_unique_keys(&records) {
            return None;
        }
        if !(check_no_dups_u64(&listed) && check_no_dups_pairs(&leased) && check_no_dups_pairs(
            &rented,
        )) {
            return None;
        }
        if !check_records_ok(&records) {
            proof {
                let i = choose|i: int|
                    0 <= i < records@.len() && !MarketModel::record_ok((#[trigger] records@[i]).1);
                lemma_assoc_map_val(records@, i, records@[i].0);
            }
            return None;
        }
        if !check_listed_entries(&records, &listed) {
            proof {
                let k = choose|k: int|
                    0 <= k < listed@.len() && !listed_entry_ok(records@, #[trigger] listed@[k]);
                assert(m.listed.contains(listed@[k]));
            }
            return None;
        }
        if !check_listed_complete(&records, &listed) {
            proof {
                let i = choose|i: int|
                    0 <= i < records@.len() && !((#[trigger] records@[i]).1.state is Listed
                        ==> listed@.contains(records@[i].0));
                lemma_assoc_map_val(records@, i, records@[i].0);
            }
            return None;
        }
        if !check_leased_entries(&records, &leased) {
            proof {
                let k = choose|k: int|
                    0 <= k < leased@.len() && !leased_entry_ok(records@, #[trigger] leased@[k]);
                assert(m.leased_pairs.contains(leased@[k]));
            }
            return None;
        }
        if !check_leased_complete(&records, &leased) {
            proof {
                let i = choose|i: int|
                    0 <= i < records@.len() && !leased@.contains(
                        (((#[trigger] records@[i]).1.leasing.leaser, records@[i].0)),
                    );
                lemma_assoc_map_val(records@, i, records@[i].0);
                assert(!m.leased_pairs.contains((records@[i].1.leasing.leaser, records@[i].0)));
            }
            return None;
        }
        if !check_rented_entries(&records, &rented) {
            proof {
                let k = choose|k: int|
                    0 <= k < rented@.len() && !rented_entry_ok(records@, #[trigger] rented@[k]);
                assert(m.rented_pairs.contains(rented@[k]));
            }
            return None;
        }
        if !check_rented_complete(&records, &rented) {
            proof {
                let i = choose|i: int|
                    0 <= i < records@.len() && !((#[trigger] records@[i]).1.state is Rented
                        ==> rented@.contains((records@[i].1.renting.renter, records@[i].0)));
                lemma_assoc_map_val(records@, i, records@[i].0);
                assert(!m.rented_pairs.contains((records@[i].1.renting.renter, records@[i].0)));
            }
            return None;
        }
        let s = SetLien {
            admin,
            payment_token,
            paused,
            leases: records,
            all_listed: listed,
            leased_by: leased,
            rented_by: rented,
        };
        proof {
            assert forall|a: u64| #[trigger]
                m.leases.dom().contains(a) implies MarketModel::record_ok(m.leases[a]) by {
                lemma_assoc_map_dom(s.leases@, a);
                let i = choose|i: int| 0 <= i < s.leases@.len() && (#[trigger] s.leases@[i]).0 == a;
                lemma_assoc_map_val(s.leases@, i, a);
            }
            assert forall|a: u64| #[trigger] m.listed.contains(a) <==> m.is_listed(a) by {
                if m.listed.contains(a) {
                    let k = choose|k: int|
                        0 <= k < s.all_listed@.len() && s.all_listed@[k] == a;
                    assert(listed_entry_ok(s.leases@, s.all_listed@[k]));
                }
                if m.is_listed(a) {
                    lemma_assoc_map_dom(s.leases@, a);
                    let i = choose|i: int|
                        0 <= i < s.leases@.len() && (#[trigger] s.leases@[i]).0 == a;
                    lemma_assoc_map_val(s.leases@, i, a);
                }
            }
            assert forall|p: (u64, u64)| #[trigger]
                m.leased_pairs.contains(p) <==> m.leases.dom().contains(p.1)
                    && m.leases[p.1].leasing.leaser == p.0 by {
                if m.leased_pairs.contains(p) {
                    let k = choose|k: int|
                        0 <= k < s.leased_by@.len() && s.leased_by@[k] == p;
                    assert(leased_entry_ok(s.leases@, s.leased_by@[k]));
                }
                if m.leases.dom().contains(p.1) && m.leases[p.1].leasing.leaser == p.0 {
                    lemma_assoc_map_dom(s.leases@, p.1);
                    let i = choose|i: int|
                        0 <= i < s.leases@.len() && (#[trigger] s.leases@[i]).0 == p.1;
                    lemma_assoc_map_val(s.leases@, i, p.1);
                    assert(s.leased_by@.contains((p.0, p.1)));
                }
            }
            assert forall|p: (u64, u64)| #[trigger]
                m.rented_pairs.contains(p) <==> m.is_rented(p.1)
                    && m.leases[p.1].renting.renter == p.0 by {
                if m.rented_pairs.contains(p) {
                    let k = choose|k: int|
                        0 <= k < s.rented_by@.len() && s.rented_by@[k] == p;
                    assert(rented_entry_ok(s.leases@, s.rented_by@[k]));
                }
                if m.is_rented(p.1) && m.leases[p.1].renting.renter == p.0 {
                    lemma_assoc_map_dom(s.leases@, p.1);
                    let i = choose|i: int|
                        0 <= i < s.leases@.len() && (#[trigger] s.leases@[i]).0 == p.1;
                    lemma_assoc_map_val(s.leases@, i, p.1);
                    assert(s.rented_by@.contains((p.0, p.1)));
                }
            }
            assert(s@ =~= m);
        }
        Some(s)
    }

    /// Every record as a key-record pair: the persistence port's way out.
    /// Feeding the dumps back through `from_parts` rebuilds this state.
    pub fn records(&self) -> (r: Vec<(u64, LeasingRenting)>)
        requires
            self.wf(),
        ensures
            unique_keys(r@),
            assoc_map(r@) == self@.leases,
    {
        let mut r: Vec<(u64, LeasingRenting)> = Vec::new();
        let mut i: usize = 0;
        while i < self.leases.len()
            invariant
                0 <= i <= self.leases@.len(),
                r@ == self.leases@.take(i as int),
            decreases self.leases@.len() - i,
        {
            r.push(self.leases[i]);
            proof {
                assert(self.leases@.take(i as int + 1) =~= self.leases@.take(i as int).push(
                    self.leases@[i as int],
                ));
            }
            i += 1;
        }
        proof {
            assert(self.leases@.take(self.leases@.len() as int) =~= self.leases@);
        }
        r
    }

    /// Every leased-by index entry, in insertion order.
    pub fn leased_pairs(&self) -> (r: Vec<(u64, u64)>)
        ensures
            r@ == self@.leased_pairs,
    {
        copy_pairs(&self.leased_by)
    }

    /// Every rented-by index entry, in insertion order.
    pub fn rented_pairs(&self) -> (r: Vec<(u64, u64)>)
        ensures
            r@ == self@.rented_pairs,
    {
        copy_pairs(&self.rented_by)
    }

    /// One-time setup: records the administrator and the payment token.
    /// Rejected once an administrator is set.
    pub fn initialize(&mut self, admin: u64, payment_token: u64) -> (r: Result<(), Error>)
        requires
            old(self).wf(),
        ensures
            final(self).wf(),
            (match old(self)@.admin {
                Some(_) => r == Err::<(), Error>(Error::AlreadyInitialized) && final(self)@ == old(
                    self,
                )@,
                None => r == Ok::<(), Error>(()) && final(self)@ == (MarketModel {
                    admin: Some(admin),
                    payment_token: Some(payment_token),
                    ..old(self)@
                }),
            }),
    {
        if self.admin.is_some() {
            return Err(Error::AlreadyInitialized);
        }
        self.admin = Some(admin);
        self.payment_token = Some(payment_token);
        Ok(())
    }

    /// Suspends new rentals; running ones wind down. Only the
    /// administrator may do this.
    pub fn pause(&mut self, auth: &AuthContext) -> (r: Result<(), Error>)
        requires
            old(self).wf(),
        ensures
            final(self).wf(),
            (if old(self)@.admin == Some(auth.principal) {
                r == Ok::<(), Error>(()) && final(self)@ == (MarketModel {
                    paused: true,
                    ..old(self)@
                })
            } else {
                r == Err::<(), Error>(Error::Unauthorized) && final(self)@ == old(self)@
            }),
    {
        let is_admin = match self.admin {
            Some(a) => a == auth.principal,
            None => false,
        };
        if !is_admin {
            return Err(Error::Unauthorized);
        }
        self.paused = true;
        Ok(())
    }

    /// Accepts new rentals again. Only the administrator may do this.
    pub fn resume(&mut self, auth: &AuthContext) -> (r: Result<(), Error>)
        requires
            old(self).wf(),
        ensures
            final(self).wf(),
            (if old(self)@.admin == Some(auth.principal) {
                r == Ok::<(), Error>(()) && final(self)@ == (MarketModel {
                    paused: false,
                    ..old(self)@
                })
            } else {
                r == Err::<(), Error>(Error::Unauthorized) && final(self)@ == old(self)@
            }),
    {
        let is_admin = match self.admin {
            Some(a) => a == auth.principal,
            None => false,
        };
        if !is_admin {
            return Err(Error::Unauthorized);
        }
        self.paused = false;
        Ok(())
    }

    /// Changes the token rents are paid in. Only the administrator may do
    /// this.
    pub fn change_payment_token(&mut self, auth: &AuthContext, payment_token: u64) -> (r: Result<
        (),
        Error,
    >)
        requires
            old(self).wf(),
        ensures
            final(self).wf(),
            (if old(self)@.admin == Some(auth.principal) {
                r == Ok::<(), Error>(()) && final(self)@ == (MarketModel {
                    payment_token: Some(payment_token),
                    ..old(self)@
                })
            } else {
                r == Err::<(), Error>(Error::Unauthorized) && final(self)@ == old(self)@
            }),
    {
        let is_admin = match self.admin {
            Some(a) => a == auth.principal,
            None => false,
        };
        if !is_admin {
            return Err(Error::Unauthorized);
        }
        self.payment_token = Some(payment_token);
        Ok(())
    }

    /// Hands administration of an asset to a new principal: a pass-through
    /// to the custody interface, gated on the administrator.
    pub fn change_nft_admin(&self, auth: &AuthContext, token: u64, new_admin: u64) -> (r: Result<
        Action,
        Error,
    >)
        ensures
            (if self@.admin == Some(auth.principal) {
                r == Ok::<Action, Error>(Action::SetAdmin { token, new_admin })
            } else {
                r == Err::<Action, Error>(Error::Unauthorized)
            }),
    {
        let is_admin = match self.admin {
            Some(a) => a == auth.principal,
            None => false,
        };
        if !is_admin {
            return Err(Error::Unauthorized);
        }
        Ok(Action::SetAdmin { token, new_admin })
    }

    /// Whether the asset is under management.
    pub fn has_lease(&self, token: u64) -> (r: bool)
        ensures
            r == self@.leases.dom().contains(token),
    {
        lease::has_lease(&self.leases, token)
    }

    /// The asset's record, or `None` when it is not managed.
    pub fn get_lease(&self, token: u64) -> (r: Option<LeasingRenting>)
        requires
            self.wf(),
        ensures
            r == (if self@.leases.dom().contains(token) {
                Some(self@.leases[token])
            } else {
                None::<LeasingRenting>
            }),
    {
        lease::load_lease(&self.leases, token)
    }

    /// The administrator, once set.
    pub fn get_admin(&self) -> (r: Option<u64>)
        ensures
            r == self@.admin,
    {
        self.admin
    }

    /// The payment token, once set.
    pub fn get_payment_token(&self) -> (r: Option<u64>)
        ensures
            r == self@.payment_token,
    {
        self.payment_token
    }

    /// Whether new rentals are suspended.
    pub fn is_paused(&self) -> (r: bool)
        ensures
            r == self@.paused,
    {
        self.paused
    }

    /// Every listed asset, in insertion order.
    pub fn get_all_listed(&self) -> (r: Vec<u64>)
        ensures
            r@ == self@.listed,
    {
        let mut r: Vec<u64> = Vec::new();
        let mut i: usize = 0;
        while i < self.all_listed.len()
            invariant
                0 <= i <= self.all_listed@.len(),
                r@ == self.all_listed@.take(i as int),
            decreases self.all_listed@.len() - i,
        {
            r.push(self.all_listed[i]);
            proof {
                assert(self.all_listed@.take(i as int + 1) =~= self.all_listed@.take(
                    i as int,
                ).push(self.all_listed@[i as int]));
            }
            i += 1;
        }
        proof {
            assert(self.all_listed@.take(self.all_listed@.len() as int) =~= self.all_listed@);
        }
        r
    }

    /// The assets leased by `user`, in insertion order.
    pub fn get_leased_by_user(&self, user: u64) -> (r: Vec<u64>)
        ensures
            r@ == assets_of(self@.leased_pairs, user),
    {
        lease::get_leased_by_user(&self.leased_by, user)
    }

    /// The assets rented by `user`, in insertion order.
    pub fn get_rented_by_user(&self, user: u64) -> (r: Vec<u64>)
        ensures
            r@ == assets_of(self@.rented_pairs, user),
    {
        lease::get_rented_by_user(&self.rented_by, user)
    }

    /// Lists an asset: on success the record is created in the `Listed`
    /// state, the asset joins the listed and leased-by indices, and the
    /// host must freeze it in the leaser's hands. Rejected exactly as
    /// `MarketModel::lease_err` says, with nothing changed.
    pub fn lease(
        &mut self,
        auth: &AuthContext,
        leaser: u64,
        token: u64,
        _price: u128,
        _duration: u128,
    ) -> (r: Result<Vec<Action>, Error>)
        requires
            old(self).wf(),
        ensures
            final(self).wf(),
            (match old(self)@.lease_err(auth.principal, leaser, token, _price, _duration) {
                Some(e) => r == Err::<Vec<Action>, Error>(e) && final(self)@ == old(self)@,
                None => r matches Ok(acts) && acts@ == MarketModel::lease_actions(leaser, token)
                    && final(self)@ == old(self)@.lease_next(leaser, token, _price, _duration),
            }),
    {
        if auth.principal != leaser {
            return Err(Error::Unauthorized);
        }
        if lease::has_lease(&self.leases, token) {
            return Err(Error::AlreadyListed);
        }
        if !is_leaseable(leaser, token, _price, _duration) {
            return Err(Error::NotLeaseable);
        }
        let record = LeasingRenting {
            leasing: Leasing { leaser, max_duration: _duration, price: _price },
            renting: Renting { renter: leaser, rent_duration: 0, rented_at: 0 },
            state: LeaseState::Listed,
        };
        proof {
            old(self)@.lemma_lease_next_wf(leaser, token, _price, _duration);
            assert(!old(self)@.listed.contains(token));
            assert(!old(self)@.leased_pairs.contains((leaser, token)));
        }
        lease::write_lease(&mut self.leases, token, record);
        lease::add_all_listed(&mut self.all_listed, token);
        lease::add_leased_by_user(&mut self.leased_by, leaser, token);
        let mut acts: Vec<Action> = Vec::new();
        acts.push(Action::SetAuthorized { token, who: leaser, authorized: false });
        proof {
            assert(self@ =~= old(self)@.lease_next(leaser, token, _price, _duration));
            assert(acts@ =~= MarketModel::lease_actions(leaser, token));
        }
        Ok(acts)
    }

    /// Rents a listed asset for `duration` seconds starting at `now`: on
    /// success the record turns `Rented`, the asset moves from the listed
    /// index to the renter's index, and the host must move the payment,
    /// hand the asset over and freeze it with the renter. Rejected exactly
    /// as `MarketModel::rent_err` says, with nothing changed.
    pub fn rent(
        &mut self,
        auth: &AuthContext,
        renter: u64,
        token: u64,
        duration: u128,
        now: u128,
    ) -> (r: Result<Vec<Action>, Error>)
        requires
            old(self).wf(),
            old(self)@.payment_token is Some,
            now > 0,
            old(self)@.rent_err(auth.principal, renter, token, duration) is None
                ==> spec_total_price(duration, old(self)@.leases[token].leasing.price)
                <= u128::MAX,
        ensures
            final(self).wf(),
            (match old(self)@.rent_err(auth.principal, renter, token, duration) {
                Some(e) => r == Err::<Vec<Action>, Error>(e) && final(self)@ == old(self)@,
                None => r matches Ok(acts) && acts@ == old(self)@.rent_actions(
                    renter,
                    token,
                    duration,
                ) && final(self)@ == old(self)@.rent_next(renter, token, duration, now),
            }),
    {
        if auth.principal != renter {
            return Err(Error::Unauthorized);
        }
        if self.paused {
            return Err(Error::Paused);
        }
        let rec = match lease::load_lease(&self.leases, token) {
            None => {
                return Err(Error::NoSuchLease);
            },
            Some(rec) => rec,
        };
        if rec.state != LeaseState::Listed {
            return Err(Error::WrongState);
        }
        if !is_rentable(renter, rec.leasing.leaser, duration, rec.leasing.max_duration) {
            return Err(Error::NotRentable);
        }
        let leaser = rec.leasing.leaser;
        let price = calculate_total_price(duration, rec.leasing.price);
        let pay = self.payment_token.unwrap();
        let new_rec = LeasingRenting {
            leasing: rec.leasing,
            renting: Renting { renter, rent_duration: duration, rented_at: now },
            state: LeaseState::Rented,
        };
        proof {
            old(self)@.lemma_rent_next_wf(renter, token, duration, now);
            assert(!old(self)@.rented_pairs.contains((renter, token)));
        }
        lease::write_lease(&mut self.leases, token, new_rec);
        lease::remove_all_listed(&mut self.all_listed, token);
        lease::add_rented_by_user(&mut self.rented_by, renter, token);
        let mut acts: Vec<Action> = Vec::new();
        acts.push(Action::Transfer { token: pay, from: renter, to: leaser, amount: price });
        acts.push(Action::SetAuthorized { token, who: leaser, authorized: true });
        acts.push(Action::Transfer { token, from: leaser, to: renter, amount: NFT_BALANCE });
        acts.push(Action::SetAuthorized { token, who: renter, authorized: false });
        proof {
            assert(self@ =~= old(self)@.rent_next(renter, token, duration, now));
            assert(acts@ =~= old(self)@.rent_actions(renter, token, duration));
        }
        Ok(acts)
    }

    /// Takes a listed, unrented asset off the market: the record and the
    /// index entries go away and the host must restore the leaser's free
    /// right to move the asset. Rejected exactly as
    /// `MarketModel::end_lease_err` says, with nothing changed.
    pub fn end_lease(&mut self, auth: &AuthContext, leaser: u64, token: u64) -> (r: Result<
        Vec<Action>,
        Error,
    >)
        requires
            old(self).wf(),
        ensures
            final(self).wf(),
            (match old(self)@.end_lease_err(auth.principal, leaser, token) {
                Some(e) => r == Err::<Vec<Action>, Error>(e) && final(self)@ == old(self)@,
                None => r matches Ok(acts) && acts@ == MarketModel::end_lease_actions(leaser, token)
                    && final(self)@ == old(self)@.end_lease_next(leaser, token),
            }),
    {
        if auth.principal != leaser {
            return Err(Error::Unauthorized);
        }
        let rec = match lease::load_lease(&self.leases, token) {
            None => {
                return Err(Error::NoSuchLease);
            },
            Some(rec) => rec,
        };
        if rec.leasing.leaser != leaser {
            return Err(Error::Unauthorized);
        }
        if rec.state != LeaseState::Listed {
            return Err(Error::WrongState);
        }
        proof {
            old(self)@.lemma_end_lease_next_wf(leaser, token);
        }
        lease::remove_lease(&mut self.leases, token);
        lease::remove_all_listed(&mut self.all_listed, token);
        lease::remove_leased_by_user(&mut self.leased_by, leaser, token);
        let mut acts: Vec<Action> = Vec::new();
        acts.push(Action::SetAuthorized { token, who: leaser, authorized: true });
        proof {
            assert(self@ =~= old(self)@.end_lease_next(leaser, token));
            assert(acts@ =~= MarketModel::end_lease_actions(leaser, token));
        }
        Ok(acts)
    }

    /// Ends a rental in good order: the record and the index entries go
    /// away and the host must let the renter hand the asset back, move it
    /// to the leaser, and free it. Rejected exactly as
    /// `MarketModel::end_rent_err` says, with nothing changed.
    pub fn end_rent(&mut self, auth: &AuthContext, renter: u64, token: u64) -> (r: Result<
        Vec<Action>,
        Error,
    >)
        requires
            old(self).wf(),
        ensures
            final(self).wf(),
            (match old(self)@.end_rent_err(auth.principal, renter, token) {
                Some(e) => r == Err::<Vec<Action>, Error>(e) && final(self)@ == old(self)@,
                None => r matches Ok(acts) && acts@ == old(self)@.end_rent_actions(renter, token)
                    && final(self)@ == old(self)@.end_rent_next(renter, token),
            }),
    {
        if auth.principal != renter {
            return Err(Error::Unauthorized);
        }
        let rec = match lease::load_lease(&self.leases, token) {
            None => {
                return Err(Error::NoSuchLease);
            },
            Some(rec) => rec,
        };
        if rec.state != LeaseState::Rented {
            return Err(Error::WrongState);
        }
        if rec.renting.renter != renter {
            return Err(Error::Unauthorized);
        }
        let leaser = rec.leasing.leaser;
        proof {
            old(self)@.lemma_end_rent_next_wf(renter, token);
        }
        lease::remove_lease(&mut self.leases, token);
        lease::remove_all_listed(&mut self.all_listed, token);
        lease::remove_rented_by_user(&mut self.rented_by, renter, token);
        lease::remove_leased_by_user(&mut self.leased_by, leaser, token);
        let mut acts: Vec<Action> = Vec::new();
        acts.push(Action::SetAuthorized { token, who: renter, authorized: true });
        acts.push(Action::Transfer { token, from: renter, to: leaser, amount: NFT_BALANCE });
        acts.push(Action::SetAuthorized { token, who: leaser, authorized: true });
        proof {
            assert(self@ =~= old(self)@.end_rent_next(renter, token));
            assert(acts@ =~= old(self)@.end_rent_actions(renter, token));
        }
        Ok(acts)
    }

    /// Reclaims an overdue rental for the leaser. With `relist` the record
    /// returns to `Listed` with no active rental and the asset rejoins the
    /// listed index; without it the record goes away. Either way the asset
    /// leaves the renter's index and the host must move it back to the
    /// leaser. Rejected exactly as `MarketModel::claim_err` says, with
    /// nothing changed.
    pub fn claim_token(
        &mut self,
        auth: &AuthContext,
        leaser: u64,
        token: u64,
        relist: bool,
        now: u128,
    ) -> (r: Result<Vec<Action>, Error>)
        requires
            old(self).wf(),
        ensures
            final(self).wf(),
            (match old(self)@.claim_err(auth.principal, leaser, token, now) {
                Some(e) => r == Err::<Vec<Action>, Error>(e) && final(self)@ == old(self)@,
                None => r matches Ok(acts) && acts@ == old(self)@.claim_actions(token, relist)
                    && final(self)@ == old(self)@.claim_next(leaser, token, relist),
            }),
    {
        if auth.principal != leaser {
            return Err(Error::Unauthorized);
        }
        let rec = match lease::load_lease(&self.leases, token) {
            None => {
                return Err(Error::NoSuchLease);
            },
            Some(rec) => rec,
        };
        if rec.leasing.leaser != leaser {
            return Err(Error::Unauthorized);
        }
        if rec.state != LeaseState::Rented {
            return Err(Error::WrongState);
        }
        let renter = rec.renting.renter;
        if !is_claimable(now, rec.renting.rented_at, rec.renting.rent_duration) {
            return Err(Error::NotYetClaimable);
        }
        proof {
            old(self)@.lemma_claim_next_wf(leaser, token, relist);
        }
        if relist {
            let new_rec = LeasingRenting {
                leasing: rec.leasing,
                renting: Renting { renter, rent_duration: 0, rented_at: 0 },
                state: LeaseState::Listed,
            };
            proof {
                assert(!old(self)@.listed.contains(token));
            }
            lease::write_lease(&mut self.leases, token, new_rec);
            lease::add_all_listed(&mut self.all_listed, token);
        } else {
            lease::remove_lease(&mut self.leases, token);
            lease::remove_all_listed(&mut self.all_listed, token);
            lease::remove_leased_by_user(&mut self.leased_by, leaser, token);
        }
        lease::remove_rented_by_user(&mut self.rented_by, renter, token);
        let mut acts: Vec<Action> = Vec::new();
        acts.push(Action::SetAuthorized { token, who: renter, authorized: true });
        acts.push(Action::Transfer { token, from: renter, to: leaser, amount: NFT_BALANCE });
        acts.push(Action::SetAuthorized { token, who: leaser, authorized: !relist });
        proof {
            assert(self@ =~= old(self)@.claim_next(leaser, token, relist));
            assert(acts@ =~= old(self)@.claim_actions(token, relist));
        }
        Ok(acts)
    }
}

} // verus!
