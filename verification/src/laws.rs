//! Custody laws: across every completed operation, value only changes hands,
//! it is never created, lost or duplicated, and the single tracked-asset
//! unit always sits with exactly one party.

use vstd::prelude::*;

use crate::auction::{close_fulfilled_deltas, lattice_step, sell_deltas};
use crate::ledger::{transfer_deltas, TokenLedger};
use crate::types::{Data, State};

verus! {

/// The lifecycle lattice never moves backward and keeps its terminal
/// outcomes exclusive: an aborted auction can only stay aborted or clear its
/// slot, a closed one likewise, and `Fulfilled` and `Aborted` are only ever
/// entered from `Running` — so no auction reaches both.
pub proof fn lemma_lattice_is_monotonic(pre: Option<State>, post: Option<State>)
    requires
        lattice_step(pre, post),
    ensures
        pre == Some(State::Aborted) ==> post == Some(State::Aborted) || post is None,
        pre == Some(State::Closed) ==> post == Some(State::Closed) || post is None,
        pre == Some(State::Fulfilled) ==> post == Some(State::Fulfilled) || post == Some(
            State::Closed,
        ),
        post == Some(State::Fulfilled) ==> pre == Some(State::Running) || pre == Some(
            State::Fulfilled,
        ),
        post == Some(State::Aborted) ==> pre == Some(State::Running) || pre == Some(
            State::Aborted,
        ),
        post == Some(State::Running) ==> pre is None || pre == Some(State::Running),
{
}

/// Custody conservation for one transfer — the shape of a running auction's
/// termination payout. For any third account, the summed balance of the two
/// endpoints and that account in the moved asset is unchanged, and balances
/// in every other asset are untouched.
pub proof fn lemma_transfer_conserves(
    l0: TokenLedger,
    l1: TokenLedger,
    asset: int,
    from: int,
    to: int,
    amount: int,
    other: int,
)
    requires
        transfer_deltas(l0, l1, asset, from, to, amount),
        other != from,
        other != to,
    ensures
        l1.bal(asset, from) + l1.bal(asset, to) + l1.bal(asset, other) == l0.bal(asset, from)
            + l0.bal(asset, to) + l0.bal(asset, other),
        forall|qa: int, qh: int| qa != asset ==> #[trigger] l1.bal(qa, qh) == l0.bal(qa, qh),
{
}

/// Custody conservation across a completed sale: the counter asset moves
/// only between escrow and seller, so the combined counter-asset holdings of
/// escrow, host and seller are exactly what they were before the sale.
pub proof fn lemma_sale_conserves_counter(
    l0: TokenLedger,
    l1: TokenLedger,
    d: Data,
    seller: int,
    escrow: int,
    price: int,
)
    requires
        sell_deltas(l0, l1, d, seller, escrow, price),
        seller != escrow,
        (d.buyer as int) != seller,
        (d.buyer as int) != escrow,
    ensures
        l1.bal(d.counter_token as int, escrow) + l1.bal(d.counter_token as int, d.buyer as int)
            + l1.bal(d.counter_token as int, seller) == l0.bal(d.counter_token as int, escrow)
            + l0.bal(d.counter_token as int, d.buyer as int) + l0.bal(
            d.counter_token as int,
            seller,
        ),
{
}

/// Custody conservation across closing a fulfilled auction: the payouts move
/// value only between escrow and host, so the combined counter-asset
/// holdings of escrow, host and seller are exactly what they were before the
/// close.
pub proof fn lemma_close_conserves_counter(
    l0: TokenLedger,
    l1: TokenLedger,
    d: Data,
    seller: int,
    escrow: int,
)
    requires
        close_fulfilled_deltas(l0, l1, d, escrow),
        seller != escrow,
        (d.buyer as int) != seller,
        (d.buyer as int) != escrow,
    ensures
        l1.bal(d.counter_token as int, escrow) + l1.bal(d.counter_token as int, d.buyer as int)
            + l1.bal(d.counter_token as int, seller) == l0.bal(d.counter_token as int, escrow)
            + l0.bal(d.counter_token as int, d.buyer as int) + l0.bal(
            d.counter_token as int,
            seller,
        ),
{
}

/// A completed sale moves the one tracked-asset unit from the seller to the
/// escrow: if the seller alone held it before, the escrow alone holds it
/// after, and the host still holds none.
pub proof fn lemma_sale_moves_asset(
    l0: TokenLedger,
    l1: TokenLedger,
    d: Data,
    seller: int,
    escrow: int,
    price: int,
)
    requires
        sell_deltas(l0, l1, d, seller, escrow, price),
        d.token != d.counter_token,
        seller != escrow,
        (d.buyer as int) != seller,
        (d.buyer as int) != escrow,
        l0.bal(d.token as int, seller) == 1,
        l0.bal(d.token as int, escrow) == 0,
        l0.bal(d.token as int, d.buyer as int) == 0,
    ensures
        l1.bal(d.token as int, seller) == 0,
        l1.bal(d.token as int, escrow) == 1,
        l1.bal(d.token as int, d.buyer as int) == 0,
{
}

/// Closing a fulfilled auction hands the tracked-asset unit on to the host:
/// if the escrow alone held it before, the host alone holds it after.
pub proof fn lemma_close_returns_asset(
    l0: TokenLedger,
    l1: TokenLedger,
    d: Data,
    seller: int,
    escrow: int,
)
    requires
        close_fulfilled_deltas(l0, l1, d, escrow),
        d.token != d.counter_token,
        seller != escrow,
        (d.buyer as int) != seller,
        (d.buyer as int) != escrow,
        l0.bal(d.token as int, escrow) == 1,
        l0.bal(d.token as int, seller) == 0,
        l0.bal(d.token as int, d.buyer as int) == 0,
    ensures
        l1.bal(d.token as int, escrow) == 0,
        l1.bal(d.token as int, d.buyer as int) == 1,
        l1.bal(d.token as int, seller) == 0,
{
}

} // verus!
