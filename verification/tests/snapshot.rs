//! The persistence port: dumping the state and rebuilding it, and the
//! rebuild's refusal of parts that break the invariant.

use set_lien::contract::SetLien;
use set_lien::storage_types::{AuthContext, LeaseState, Leasing, LeasingRenting, Renting};

fn record(leaser: u64, price: u128, max_duration: u128) -> LeasingRenting {
    LeasingRenting {
        leasing: Leasing { leaser, max_duration, price },
        renting: Renting { renter: leaser, rent_duration: 0, rented_at: 0 },
        state: LeaseState::Listed,
    }
}

#[test]
fn dump_and_rebuild_round_trip() {
    let mut m = SetLien::new();
    assert_eq!(Ok(()), m.initialize(1, 200));
    let leaser = AuthContext { principal: 2 };
    let renter = AuthContext { principal: 3 };
    m.lease(&leaser, 2, 10, 5, 10 * 86400).unwrap();
    m.lease(&leaser, 2, 11, 7, 20 * 86400).unwrap();
    m.rent(&renter, 3, 10, 86400, 1000).unwrap();

    let rebuilt = SetLien::from_parts(
        m.get_admin(),
        m.get_payment_token(),
        m.is_paused(),
        m.records(),
        m.get_all_listed(),
        m.leased_pairs(),
        m.rented_pairs(),
    )
    .unwrap();

    assert_eq!(m.get_lease(10), rebuilt.get_lease(10));
    assert_eq!(m.get_lease(11), rebuilt.get_lease(11));
    assert_eq!(m.get_all_listed(), rebuilt.get_all_listed());
    assert_eq!(m.get_leased_by_user(2), rebuilt.get_leased_by_user(2));
    assert_eq!(m.get_rented_by_user(3), rebuilt.get_rented_by_user(3));
    assert_eq!(m.get_admin(), rebuilt.get_admin());
    assert_eq!(m.get_payment_token(), rebuilt.get_payment_token());
}

#[test]
fn rebuild_refuses_duplicate_keys() {
    let r = SetLien::from_parts(
        Some(1),
        Some(200),
        false,
        vec![(10, record(2, 5, 86400)), (10, record(2, 5, 86400))],
        vec![10],
        vec![(2, 10)],
        vec![],
    );
    assert!(r.is_none());
}

#[test]
fn rebuild_refuses_inconsistent_indices() {
    // A listed record missing from the listed index.
    let r = SetLien::from_parts(
        Some(1),
        Some(200),
        false,
        vec![(10, record(2, 5, 86400))],
        vec![],
        vec![(2, 10)],
        vec![],
    );
    assert!(r.is_none());
    // A listed-index entry with no record behind it.
    let r = SetLien::from_parts(
        Some(1),
        Some(200),
        false,
        vec![],
        vec![10],
        vec![],
        vec![],
    );
    assert!(r.is_none());
    // A leased-by entry naming the wrong owner.
    let r = SetLien::from_parts(
        Some(1),
        Some(200),
        false,
        vec![(10, record(2, 5, 86400))],
        vec![10],
        vec![(9, 10)],
        vec![],
    );
    assert!(r.is_none());
}

#[test]
fn rebuild_refuses_unsound_records() {
    // A listed record with an active rental duration.
    let mut bad = record(2, 5, 86400);
    bad.renting.rent_duration = 86400;
    let r = SetLien::from_parts(
        Some(1),
        Some(200),
        false,
        vec![(10, bad)],
        vec![10],
        vec![(2, 10)],
        vec![],
    );
    assert!(r.is_none());
}

#[test]
fn rebuild_accepts_what_operations_built() {
    // An empty marketplace round-trips too.
    let m = SetLien::new();
    let rebuilt = SetLien::from_parts(
        m.get_admin(),
        m.get_payment_token(),
        m.is_paused(),
        m.records(),
        m.get_all_listed(),
        m.leased_pairs(),
        m.rented_pairs(),
    );
    assert!(rebuilt.is_some());
}
