//! Shared data model: auction parameters, the lifecycle state, the computed
//! bid view, storage keys, and the outcome / error taxonomy.

use vstd::prelude::*;

verus! {

/// The immutable parameters of one auction, written once at setup.
///
/// Principals and assets are identified by plain account / asset identifiers;
/// the host environment that carries real account handles converts at its
/// edge. `buyer` is the auction host: in a reverse Dutch auction the host is
/// the party buying the tracked asset.
#[derive(Clone, Copy, Debug, PartialEq, Eq, Structural)]
pub struct Data {
    pub buyer: u32,
    pub token: u32,
    pub counter_token: u32,
    pub auction_start_ledger: u32,
    pub bid_start_amount: i128,
    pub bid_incr_amount: i128,
    pub bid_incr_interval: u32,
    pub bid_incr_times: u32,
    pub bid_max_amount: i128,
}

/// The computed view of the bid schedule at one ledger height. Never stored.
#[derive(Clone, Copy, Debug, PartialEq, Eq, Structural)]
pub struct BidInfo {
    pub current_bid: i128,
    pub current_ledger: u32,
    pub ledgers_to_next_increase: u32,
    pub max_bid: i128,
    pub max_bid_ledger: u32,
    pub next_bid: i128,
    pub next_bid_ledger: u32,
}

/// The persisted lifecycle state of an auction. Absence of a persisted state
/// is the implicit uninitialised state; the lattice is
/// uninitialised -> Running -> (Fulfilled | Aborted), Fulfilled -> Closed,
/// and Closed / Aborted -> uninitialised again through a reset.
#[derive(Clone, Copy, Debug, PartialEq, Eq, Structural)]
pub enum State {
    Running,
    Fulfilled,
    Closed,
    Aborted,
}

/// The two persisted records of an auction instance, as keys of the host's
/// key-value store.
#[derive(Clone, Copy, Debug, PartialEq, Eq, Structural)]
pub enum DataKey {
    State,
    Data,
}

/// The recoverable outcome of an operation, returned as a value. The
/// instance's persisted state is left exactly as it was unless the variant
/// says a transition happened.
#[derive(Clone, Copy, Debug, PartialEq, Eq, Structural)]
pub enum Status {
    AlreadyInitialised,
    AlreadyClosed,
    Started,
    Aborted,
    Closed,
    Fulfilled,
    NotInitialised,
    NotRunning,
    BidMustBePositive,
    TransferError,
    Reset,
}

/// The fatal errors: precondition violations that abort the call with no
/// effect rather than reporting an outcome.
#[derive(Clone, Copy, Debug, PartialEq, Eq, Structural)]
pub enum Error {
    NotInitialised,
    AlreadyInitialised,
    NotRunning,
    NotYetClosed,
}

} // verus!
