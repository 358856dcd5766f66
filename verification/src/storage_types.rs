//! The data model: lease records, authorization evidence, errors, and the
//! custody actions an operation asks the host to perform.

use vstd::prelude::*;

verus! {

/// The lifecycle state of a managed asset. An asset with no record at all is
/// unmanaged: a record always holds exactly one of these two states.
#[derive(Clone, Copy, PartialEq, Eq, Structural, Debug)]
pub enum LeaseState {
    Listed,
    Rented,
}

/// Terms set by the owner at listing time; immutable except by re-listing.
#[derive(Clone, Copy, PartialEq, Eq, Structural, Debug)]
pub struct Leasing {
    /// Principal that owns the asset and listed it.
    pub leaser: u64,
    /// Largest rental length, in seconds, the owner accepts.
    pub max_duration: u128,
    /// Amount owed per full day of rental.
    pub price: u128,
}

/// The current or most recent occupancy of a managed asset.
#[derive(Clone, Copy, PartialEq, Eq, Structural, Debug)]
pub struct Renting {
    /// Principal renting the asset; equals the leaser while no rental has
    /// ever started (a sentinel for "no renter").
    pub renter: u64,
    /// Seconds the current rental was contracted for; 0 when none is active.
    pub rent_duration: u128,
    /// Timestamp at which the current rental began; 0 when none is active.
    pub rented_at: u128,
}

/// The per-asset lease record: terms, occupancy, and lifecycle state.
#[derive(Clone, Copy, PartialEq, Eq, Structural, Debug)]
pub struct LeasingRenting {
    pub leasing: Leasing,
    pub renting: Renting,
    pub state: LeaseState,
}

/// Evidence that the host has authorized the named principal for the current
/// invocation. The host constructs one only after its identity service has
/// approved `principal`; every operation checks it against the principal it
/// acts for before touching any state.
#[derive(Clone, Copy, PartialEq, Eq, Structural, Debug)]
pub struct AuthContext {
    pub principal: u64,
}

/// Why an operation was rejected. Every rejection leaves the marketplace
/// exactly as it was.
#[derive(Clone, Copy, PartialEq, Eq, Structural, Debug)]
pub enum Error {
    /// `initialize` was called when an administrator was already set.
    AlreadyInitialized,
    /// The authorization evidence does not cover the principal the
    /// operation acts for.
    Unauthorized,
    /// No lease record exists for the asset.
    NoSuchLease,
    /// A lease record already exists for the asset.
    AlreadyListed,
    /// The listing terms are unacceptable (zero price or zero duration).
    NotLeaseable,
    /// The rental request is unacceptable (self-rental, a duration that is
    /// zero, not day-aligned, or over the listing's maximum).
    NotRentable,
    /// The asset is not in the lifecycle state the operation needs.
    WrongState,
    /// The contracted rental period has not fully elapsed yet.
    NotYetClaimable,
    /// New rentals are suspended by the administrator.
    Paused,
}

/// One call the host must make into the custody/payment interface, in the
/// order returned. The core only sequences these; performing them is the
/// host's part.
#[derive(Clone, Copy, PartialEq, Eq, Structural, Debug)]
pub enum Action {
    /// Allow (`true`) or forbid (`false`) `who` to move `token`.
    SetAuthorized { token: u64, who: u64, authorized: bool },
    /// Move `amount` units of `token` from `from` to `to`.
    Transfer { token: u64, from: u64, to: u64, amount: u128 },
    /// Hand administration of `token` to `new_admin`.
    SetAdmin { token: u64, new_admin: u64 },
}

} // verus!
