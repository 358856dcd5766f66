//! The full lifecycle, end to end: list, rent, return, reclaim.

use set_lien::contract::SetLien;
use set_lien::storage_types::{Action, AuthContext, Error, LeaseState};

#[test]
fn test() {
    let admin: u64 = 1;
    let leaser: u64 = 2;
    let renter: u64 = 3;
    let token: u64 = 100;
    let payment: u64 = 200;

    let mut set_lien = SetLien::new();
    assert_eq!(Ok(()), set_lien.initialize(admin, payment));

    let price: u128 = 10;
    let max_duration: u128 = 30 * 24 * 60 * 60;
    let duration: u128 = 1 * 24 * 60 * 60;
    let now: u128 = 1_700_000_000;

    let acts = set_lien
        .lease(&AuthContext { principal: leaser }, leaser, token, price, max_duration)
        .unwrap();

    // Verify fields
    let lease = set_lien.get_lease(token).unwrap();
    assert_eq!(LeaseState::Listed, lease.state);
    assert_eq!(leaser, lease.leasing.leaser);
    assert_eq!(max_duration, lease.leasing.max_duration);
    assert_eq!(price, lease.leasing.price);
    // The asset is frozen in the leaser's hands
    assert_eq!(
        vec![Action::SetAuthorized { token, who: leaser, authorized: false }],
        acts
    );

    let acts = set_lien
        .rent(&AuthContext { principal: renter }, renter, token, duration, now)
        .unwrap();

    let lease = set_lien.get_lease(token).unwrap();
    assert_eq!(LeaseState::Rented, lease.state);
    assert_eq!(leaser, lease.leasing.leaser);
    assert_eq!(max_duration, lease.leasing.max_duration);
    assert_eq!(price, lease.leasing.price);
    assert_eq!(renter, lease.renting.renter);
    assert_eq!(duration, lease.renting.rent_duration);

    // Payment of one day's price moves renter -> leaser; the asset moves
    // leaser -> renter and is frozen with the renter.
    assert_eq!(
        vec![
            Action::Transfer { token: payment, from: renter, to: leaser, amount: price },
            Action::SetAuthorized { token, who: leaser, authorized: true },
            Action::Transfer { token, from: leaser, to: renter, amount: 1 },
            Action::SetAuthorized { token, who: renter, authorized: false },
        ],
        acts
    );

    let acts = set_lien
        .end_rent(&AuthContext { principal: renter }, renter, token)
        .unwrap();
    let has_lease = set_lien.has_lease(token);
    assert_eq!(false, has_lease);

    // The asset returns renter -> leaser and both are free to move again.
    assert_eq!(
        vec![
            Action::SetAuthorized { token, who: renter, authorized: true },
            Action::Transfer { token, from: renter, to: leaser, amount: 1 },
            Action::SetAuthorized { token, who: leaser, authorized: true },
        ],
        acts
    );
}

#[test]
fn rent_then_end_rent_leaves_no_record() {
    let mut m = SetLien::new();
    assert_eq!(Ok(()), m.initialize(1, 200));
    let leaser = AuthContext { principal: 2 };
    let renter = AuthContext { principal: 3 };
    m.lease(&leaser, 2, 77, 5, 10 * 86400).unwrap();
    m.rent(&renter, 3, 77, 2 * 86400, 50_000).unwrap();
    let acts = m.end_rent(&renter, 3, 77).unwrap();
    assert!(!m.has_lease(77));
    assert_eq!(None, m.get_lease(77));
    // Custody goes back to the original leaser.
    assert_eq!(
        Action::Transfer { token: 77, from: 3, to: 2, amount: 1 },
        acts[1]
    );
    assert!(m.get_all_listed().is_empty());
    assert!(m.get_leased_by_user(2).is_empty());
    assert!(m.get_rented_by_user(3).is_empty());
}

#[test]
fn claim_with_relist_returns_asset_and_keeps_listing() {
    let mut m = SetLien::new();
    assert_eq!(Ok(()), m.initialize(1, 200));
    let leaser = AuthContext { principal: 2 };
    let renter = AuthContext { principal: 3 };
    m.lease(&leaser, 2, 77, 5, 10 * 86400).unwrap();
    m.rent(&renter, 3, 77, 86400, 1000).unwrap();
    // One full day has elapsed: the rental is overdue.
    let acts = m.claim_token(&leaser, 2, 77, true, 1000 + 86400).unwrap();
    assert_eq!(
        vec![
            Action::SetAuthorized { token: 77, who: 3, authorized: true },
            Action::Transfer { token: 77, from: 3, to: 2, amount: 1 },
            Action::SetAuthorized { token: 77, who: 2, authorized: false },
        ],
        acts
    );
    let lease = m.get_lease(77).unwrap();
    assert_eq!(LeaseState::Listed, lease.state);
    assert_eq!(0, lease.renting.rent_duration);
    assert_eq!(vec![77], m.get_all_listed());
    assert_eq!(vec![77], m.get_leased_by_user(2));
    assert!(m.get_rented_by_user(3).is_empty());
}

#[test]
fn claim_without_relist_removes_record() {
    let mut m = SetLien::new();
    assert_eq!(Ok(()), m.initialize(1, 200));
    let leaser = AuthContext { principal: 2 };
    let renter = AuthContext { principal: 3 };
    m.lease(&leaser, 2, 77, 5, 10 * 86400).unwrap();
    m.rent(&renter, 3, 77, 86400, 1000).unwrap();
    let acts = m.claim_token(&leaser, 2, 77, false, 1000 + 2 * 86400).unwrap();
    assert_eq!(
        Action::SetAuthorized { token: 77, who: 2, authorized: true },
        acts[2]
    );
    assert!(!m.has_lease(77));
    assert!(m.get_all_listed().is_empty());
    assert!(m.get_leased_by_user(2).is_empty());
    assert!(m.get_rented_by_user(3).is_empty());
}

#[test]
fn double_list_rejected_without_mutation() {
    let mut m = SetLien::new();
    assert_eq!(Ok(()), m.initialize(1, 200));
    let leaser = AuthContext { principal: 2 };
    m.lease(&leaser, 2, 77, 5, 10 * 86400).unwrap();
    let before = m.get_lease(77);
    let r = m.lease(&leaser, 2, 77, 9, 20 * 86400);
    assert_eq!(Err(Error::AlreadyListed), r);
    assert_eq!(before, m.get_lease(77));
    assert_eq!(vec![77], m.get_all_listed());
    assert_eq!(vec![77], m.get_leased_by_user(2));
    // A different owner is rejected the same way.
    let other = AuthContext { principal: 9 };
    assert_eq!(Err(Error::AlreadyListed), m.lease(&other, 9, 77, 9, 86400));
}
