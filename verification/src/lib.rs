//! A peer-to-peer leasing marketplace for uniquely-owned digital assets.
//!
//! An owner (the leaser) lists an asset at a price per day and a maximum
//! rental duration; a renter rents it for a bounded, day-aligned period by
//! paying up front; the asset comes back at the end of the rental, or the
//! leaser reclaims it once the rental period has elapsed.
//!
//! The library is the decision core: it keeps the lease records and the
//! directory indices, checks every guard, and answers each operation with
//! the exact sequence of custody actions (authorization flips and token
//! transfers) that the hosting environment must perform. The host performs
//! authorization, storage, clock reads and token movement and feeds plain
//! values in and out.

use vstd::prelude::*;

pub mod assoc;
pub mod contract;
pub mod laws;
pub mod lease;
pub mod model;
pub mod storage_types;

verus! {

/// Seconds in one day: rental durations are whole-day multiples of this.
pub const SECONDS_IN_DAYS: u128 = 86400;

/// A rented asset is a single unique token: custody moves in units of one.
pub const NFT_BALANCE: u128 = 1;

/// The amount owed for a rental: full days at `price` per day; a fractional
/// final day is not charged (floor division).
pub open spec fn spec_total_price(duration: u128, price: u128) -> int {
    (duration as int / (SECONDS_IN_DAYS as int)) * (price as int)
}

/// Converts a rental duration into the amount owed, at `_price` per full day.
pub fn calculate_total_price(_duration: u128, _price: u128) -> (total: u128)
    requires
        spec_total_price(_duration, _price) <= u128::MAX,
    ensures
        total == spec_total_price(_duration, _price),
{
    let num_days = _duration / SECONDS_IN_DAYS;
    num_days * _price
}

} // verus!
