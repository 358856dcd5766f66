//! The directory indices across transitions: contents and insertion order.

use set_lien::contract::SetLien;
use set_lien::storage_types::AuthContext;

#[test]
fn listed_index_tracks_listed_state() {
    let mut m = SetLien::new();
    assert_eq!(Ok(()), m.initialize(1, 200));
    let a = AuthContext { principal: 2 };
    let b = AuthContext { principal: 5 };
    m.lease(&a, 2, 10, 1, 86400).unwrap();
    m.lease(&a, 2, 11, 1, 86400).unwrap();
    m.lease(&b, 5, 12, 1, 86400).unwrap();
    assert_eq!(vec![10, 11, 12], m.get_all_listed());
    assert_eq!(vec![10, 11], m.get_leased_by_user(2));
    assert_eq!(vec![12], m.get_leased_by_user(5));
    assert!(m.get_leased_by_user(7).is_empty());

    // Renting takes the asset out of the listed index, not out of the
    // leaser's index.
    let r = AuthContext { principal: 3 };
    m.rent(&r, 3, 11, 86400, 1000).unwrap();
    assert_eq!(vec![10, 12], m.get_all_listed());
    assert_eq!(vec![10, 11], m.get_leased_by_user(2));
    assert_eq!(vec![11], m.get_rented_by_user(3));

    // Returning it removes every trace.
    m.end_rent(&r, 3, 11).unwrap();
    assert_eq!(vec![10, 12], m.get_all_listed());
    assert_eq!(vec![10], m.get_leased_by_user(2));
    assert!(m.get_rented_by_user(3).is_empty());

    // Ending a listing removes it from the listed index.
    m.end_lease(&a, 2, 10).unwrap();
    assert_eq!(vec![12], m.get_all_listed());
    assert!(m.get_leased_by_user(2).is_empty());
}

#[test]
fn relisted_claim_rejoins_listed_index() {
    let mut m = SetLien::new();
    assert_eq!(Ok(()), m.initialize(1, 200));
    let a = AuthContext { principal: 2 };
    let r = AuthContext { principal: 3 };
    m.lease(&a, 2, 10, 1, 86400).unwrap();
    m.lease(&a, 2, 11, 1, 86400).unwrap();
    m.rent(&r, 3, 10, 86400, 1000).unwrap();
    assert_eq!(vec![11], m.get_all_listed());
    m.claim_token(&a, 2, 10, true, 1000 + 86400).unwrap();
    assert_eq!(vec![11, 10], m.get_all_listed());
    assert_eq!(vec![10, 11], m.get_leased_by_user(2));
    assert!(m.get_rented_by_user(3).is_empty());
    // The relisted asset can be rented again.
    assert!(m.rent(&r, 3, 10, 86400, 500_000).is_ok());
}
