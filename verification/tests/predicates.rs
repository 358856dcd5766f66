//! The pure predicates and the pricing arithmetic, on concrete values.

use set_lien::calculate_total_price;
use set_lien::contract::{is_claimable, is_leaseable, is_rentable};

#[test]
fn total_price_floors_partial_days() {
    assert_eq!(30, calculate_total_price(86400 * 3 + 1, 10));
    assert_eq!(7, calculate_total_price(86400, 7));
    assert_eq!(0, calculate_total_price(43200, 100));
}

#[test]
fn total_price_exact_days() {
    assert_eq!(0, calculate_total_price(0, 10));
    assert_eq!(20, calculate_total_price(2 * 86400, 10));
    assert_eq!(30, calculate_total_price(86400 * 4 - 1, 10));
}

#[test]
fn leaseable_needs_positive_terms() {
    assert!(is_leaseable(1, 100, 10, 86400));
    assert!(!is_leaseable(1, 100, 0, 86400));
    assert!(!is_leaseable(1, 100, 10, 0));
}

#[test]
fn rentable_rejects_non_day_aligned_durations() {
    assert!(!is_rentable(3, 2, 86399, 1000000));
    assert!(is_rentable(3, 2, 172800, 1000000));
}

#[test]
fn rentable_rejects_self_rental_and_excess() {
    assert!(!is_rentable(2, 2, 172800, 1000000));
    assert!(!is_rentable(3, 2, 0, 1000000));
    assert!(!is_rentable(3, 2, 2 * 86400, 86400));
    assert!(is_rentable(3, 2, 86400, 86400));
}

#[test]
fn claimable_only_after_period_elapses() {
    assert!(!is_claimable(1400, 1000, 500));
    assert!(is_claimable(1500, 1000, 500));
    assert!(is_claimable(1501, 1000, 500));
    // A start in the future is answered defensively.
    assert!(!is_claimable(900, 1000, 500));
}
