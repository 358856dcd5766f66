//! One input for every kind of rejection, and the admin gates.

use set_lien::contract::SetLien;
use set_lien::storage_types::{Action, AuthContext, Error, LeaseState};

fn listed_market() -> SetLien {
    let mut m = SetLien::new();
    assert_eq!(Ok(()), m.initialize(1, 200));
    let leaser = AuthContext { principal: 2 };
    m.lease(&leaser, 2, 77, 5, 10 * 86400).unwrap();
    m
}

fn rented_market() -> SetLien {
    let mut m = listed_market();
    let renter = AuthContext { principal: 3 };
    m.rent(&renter, 3, 77, 86400, 1000).unwrap();
    m
}

#[test]
fn initialize_twice_rejected() {
    let mut m = SetLien::new();
    assert_eq!(Ok(()), m.initialize(1, 200));
    assert_eq!(Err(Error::AlreadyInitialized), m.initialize(4, 300));
    assert_eq!(Some(1), m.get_admin());
    assert_eq!(Some(200), m.get_payment_token());
}

#[test]
fn mismatched_authorization_rejected() {
    let mut m = SetLien::new();
    assert_eq!(Ok(()), m.initialize(1, 200));
    let wrong = AuthContext { principal: 9 };
    assert_eq!(Err(Error::Unauthorized), m.lease(&wrong, 2, 77, 5, 86400));
    assert!(!m.has_lease(77));
}

#[test]
fn foreign_lease_cannot_be_ended_or_claimed() {
    let mut m = rented_market();
    // Principal 9 is authorized as itself, but owns neither side.
    let stranger = AuthContext { principal: 9 };
    assert_eq!(Err(Error::Unauthorized), m.end_lease(&stranger, 9, 77));
    assert_eq!(Err(Error::Unauthorized), m.end_rent(&stranger, 9, 77));
    assert_eq!(Err(Error::Unauthorized), m.claim_token(&stranger, 9, 77, false, u128::MAX));
    assert_eq!(LeaseState::Rented, m.get_lease(77).unwrap().state);
}

#[test]
fn not_leaseable_rejected() {
    let mut m = SetLien::new();
    assert_eq!(Ok(()), m.initialize(1, 200));
    let leaser = AuthContext { principal: 2 };
    assert_eq!(Err(Error::NotLeaseable), m.lease(&leaser, 2, 77, 0, 86400));
    assert_eq!(Err(Error::NotLeaseable), m.lease(&leaser, 2, 77, 5, 0));
    assert!(!m.has_lease(77));
}

#[test]
fn no_such_lease_rejected() {
    let mut m = SetLien::new();
    assert_eq!(Ok(()), m.initialize(1, 200));
    let renter = AuthContext { principal: 3 };
    let leaser = AuthContext { principal: 2 };
    assert_eq!(Err(Error::NoSuchLease), m.rent(&renter, 3, 77, 86400, 1000));
    assert_eq!(Err(Error::NoSuchLease), m.end_lease(&leaser, 2, 77));
    assert_eq!(Err(Error::NoSuchLease), m.end_rent(&renter, 3, 77));
    assert_eq!(Err(Error::NoSuchLease), m.claim_token(&leaser, 2, 77, true, 1000));
}

#[test]
fn not_rentable_rejected() {
    let mut m = listed_market();
    let leaser = AuthContext { principal: 2 };
    let renter = AuthContext { principal: 3 };
    // Self-rental, misaligned duration, and excess duration.
    assert_eq!(Err(Error::NotRentable), m.rent(&leaser, 2, 77, 86400, 1000));
    assert_eq!(Err(Error::NotRentable), m.rent(&renter, 3, 77, 86399, 1000));
    assert_eq!(Err(Error::NotRentable), m.rent(&renter, 3, 77, 11 * 86400, 1000));
    assert_eq!(LeaseState::Listed, m.get_lease(77).unwrap().state);
}

#[test]
fn wrong_state_rejected() {
    let mut m = listed_market();
    let leaser = AuthContext { principal: 2 };
    let renter = AuthContext { principal: 3 };
    // A listed asset cannot be returned or claimed.
    assert_eq!(Err(Error::WrongState), m.end_rent(&renter, 3, 77));
    assert_eq!(Err(Error::WrongState), m.claim_token(&leaser, 2, 77, true, u128::MAX));
    m.rent(&renter, 3, 77, 86400, 1000).unwrap();
    // A rented asset cannot be delisted or rented again.
    assert_eq!(Err(Error::WrongState), m.end_lease(&leaser, 2, 77));
    let other = AuthContext { principal: 4 };
    assert_eq!(Err(Error::WrongState), m.rent(&other, 4, 77, 86400, 2000));
}

#[test]
fn not_yet_claimable_rejected() {
    let mut m = listed_market();
    let leaser = AuthContext { principal: 2 };
    let renter = AuthContext { principal: 3 };
    m.rent(&renter, 3, 77, 86400, 1000).unwrap();
    assert_eq!(Err(Error::NotYetClaimable), m.claim_token(&leaser, 2, 77, true, 1000));
    assert_eq!(Err(Error::NotYetClaimable), m.claim_token(&leaser, 2, 77, true, 1000 + 86399));
    assert!(m.claim_token(&leaser, 2, 77, true, 1000 + 86400).is_ok());
}

#[test]
fn paused_gates_new_rentals_only() {
    let mut m = listed_market();
    let admin = AuthContext { principal: 1 };
    let leaser = AuthContext { principal: 2 };
    let renter = AuthContext { principal: 3 };
    assert_eq!(Ok(()), m.pause(&admin));
    assert_eq!(Err(Error::Paused), m.rent(&renter, 3, 77, 86400, 1000));
    // Existing obligations still wind down: listing can end while paused.
    assert!(m.end_lease(&leaser, 2, 77).is_ok());
    assert_eq!(Ok(()), m.resume(&admin));
    m.lease(&leaser, 2, 77, 5, 10 * 86400).unwrap();
    assert!(m.rent(&renter, 3, 77, 86400, 1000).is_ok());
}

#[test]
fn admin_gates_pause_and_configuration() {
    let mut m = SetLien::new();
    assert_eq!(Ok(()), m.initialize(1, 200));
    let not_admin = AuthContext { principal: 2 };
    let admin = AuthContext { principal: 1 };
    assert_eq!(Err(Error::Unauthorized), m.pause(&not_admin));
    assert_eq!(Err(Error::Unauthorized), m.resume(&not_admin));
    assert_eq!(Err(Error::Unauthorized), m.change_payment_token(&not_admin, 300));
    assert_eq!(Err(Error::Unauthorized), m.change_nft_admin(&not_admin, 77, 9));
    assert_eq!(Ok(()), m.change_payment_token(&admin, 300));
    assert_eq!(Some(300), m.get_payment_token());
    assert_eq!(
        Ok(Action::SetAdmin { token: 77, new_admin: 9 }),
        m.change_nft_admin(&admin, 77, 9)
    );
}
