//! The auction state machine and the custody protocol: every operation first
//! validates the transition, performs its transfers against the ledger, and
//! only then commits the new state, so a failing transfer leaves state and
//! balances exactly as they were.

use vstd::prelude::*;

use crate::ledger::{lemma_bal_in_range, same_balances, transfer_deltas, TokenLedger};
use crate::pricing::{
    compute_bid_info, data_wf, lemma_price_bounds, max_bid_ledger_of, next_ledger_at,
    next_price_at, price_at, wait_at,
};
use crate::types::{BidInfo, Data, DataKey, Error, State, Status};

verus! {

/// The transitions the lifecycle lattice allows: stay put, start from the
/// uninitialised slot, leave `Running` for `Fulfilled` or `Aborted`, close a
/// fulfilled auction, or reset a terminal one back to uninitialised.
pub open spec fn lattice_step(pre: Option<State>, post: Option<State>) -> bool {
    ||| post == pre
    ||| (pre is None && post == Some(State::Running))
    ||| (pre == Some(State::Running) && (post == Some(State::Fulfilled) || post == Some(
        State::Aborted,
    )))
    ||| (pre == Some(State::Fulfilled) && post == Some(State::Closed))
    ||| ((pre == Some(State::Closed) || pre == Some(State::Aborted)) && post is None)
}

/// The balance of account `(qa, qh)` after moving `amount` of `asset` from
/// `from` to `to` on `l`.
pub open spec fn bal_after(
    l: TokenLedger,
    asset: int,
    from: int,
    to: int,
    amount: int,
    qa: int,
    qh: int,
) -> int {
    l.bal(qa, qh) + (if qa == asset && qh == from { -amount } else { 0 }) + (if qa == asset
        && qh == to { amount } else { 0 })
}

/// Both custody legs of a sale go through on ledger `l`: the seller covers
/// one unit of the tracked asset, and — once that unit has moved — the escrow
/// covers the price in the counter asset.
pub open spec fn sell_succeeds(
    l: TokenLedger,
    d: Data,
    seller: int,
    escrow: int,
    price: int,
) -> bool {
    &&& l.can_transfer(d.token as int, seller, escrow, 1)
    &&& 0 <= price
    &&& price <= bal_after(l, d.token as int, seller, escrow, 1, d.counter_token as int, escrow)
    &&& (escrow == seller || bal_after(
        l,
        d.token as int,
        seller,
        escrow,
        1,
        d.counter_token as int,
        seller,
    ) + price <= i128::MAX)
}

/// `l1` is `l0` after a completed sale: one unit of the tracked asset moved
/// from the seller to the escrow, and the price moved from the escrow to the
/// seller; every other balance is unchanged.
pub open spec fn sell_deltas(
    l0: TokenLedger,
    l1: TokenLedger,
    d: Data,
    seller: int,
    escrow: int,
    price: int,
) -> bool {
    forall|qa: int, qh: int|
        #[trigger] l1.bal(qa, qh) == l0.bal(qa, qh)
            + (if qa == d.token as int && qh == seller { -1int } else { 0 })
            + (if qa == d.token as int && qh == escrow { 1int } else { 0 })
            + (if qa == d.counter_token as int && qh == escrow { -price } else { 0 })
            + (if qa == d.counter_token as int && qh == seller { price } else { 0 })
}

/// Both payout legs of closing a fulfilled auction go through on ledger `l`:
/// the escrowed tracked-asset balance moves to the host, and — if any counter
/// asset remains — that residual moves to the host as well.
pub open spec fn close_fulfilled_succeeds(l: TokenLedger, d: Data, escrow: int) -> bool {
    let ab = l.bal(d.token as int, escrow);
    let cb = l.bal(d.counter_token as int, escrow);
    &&& l.can_transfer(d.token as int, escrow, d.buyer as int, ab)
    &&& (cb > 0 ==> {
        &&& cb <= bal_after(
            l,
            d.token as int,
            escrow,
            d.buyer as int,
            ab,
            d.counter_token as int,
            escrow,
        )
        &&& (escrow == d.buyer as int || bal_after(
            l,
            d.token as int,
            escrow,
            d.buyer as int,
            ab,
            d.counter_token as int,
            d.buyer as int,
        ) + cb <= i128::MAX)
    })
}

/// `l1` is `l0` after closing a fulfilled auction: the escrow's whole
/// tracked-asset balance and its whole counter-asset residual moved to the
/// host; every other balance is unchanged.
pub open spec fn close_fulfilled_deltas(
    l0: TokenLedger,
    l1: TokenLedger,
    d: Data,
    escrow: int,
) -> bool {
    let ab = l0.bal(d.token as int, escrow);
    let cb = l0.bal(d.counter_token as int, escrow);
    forall|qa: int, qh: int|
        #[trigger] l1.bal(qa, qh) == l0.bal(qa, qh)
            + (if qa == d.token as int && qh == escrow { -ab } else { 0 })
            + (if qa == d.token as int && qh == d.buyer as int { ab } else { 0 })
            + (if qa == d.counter_token as int && qh == escrow { -cb } else { 0 })
            + (if qa == d.counter_token as int && qh == d.buyer as int { cb } else { 0 })
}

/// One auction instance: the escrow account it owns and its two persisted
/// records. An absent state record is the implicit uninitialised state.
pub struct AuctionContract {
    escrow: u32,
    state: Option<State>,
    data: Option<Data>,
}

impl AuctionContract {
    /// The persisted lifecycle state; `None` while uninitialised.
    pub closed spec fn current_state(self) -> Option<State> {
        self.state
    }

    /// The persisted auction parameters; `None` while uninitialised.
    pub closed spec fn auction_data(self) -> Option<Data> {
        self.data
    }

    /// The escrow account this instance holds custody under.
    pub closed spec fn escrow_account(self) -> int {
        self.escrow as int
    }

    /// Whenever a state is persisted, so are well-formed parameters, and the
    /// other way round.
    pub open spec fn inv(self) -> bool {
        &&& (self.current_state() is Some <==> self.auction_data() is Some)
        &&& (self.auction_data() is Some ==> data_wf(self.auction_data().unwrap()))
    }

    /// A fresh, uninitialised auction instance over the given escrow account.
    pub fn new(contract_id: u32) -> (r: AuctionContract)
        ensures
            r.inv(),
            r.current_state() is None,
            r.auction_data() is None,
            r.escrow_account() == contract_id as int,
    {
        AuctionContract { escrow: contract_id, state: None, data: None }
    }

    /// The persisted lifecycle state, as a value.
    pub fn state(&self) -> (r: Option<State>)
        ensures
            r == self.current_state(),
    {
        self.state
    }

    /// The persisted auction parameters, as a value.
    pub fn data(&self) -> (r: Option<Data>)
        ensures
            r == self.auction_data(),
    {
        self.data
    }

    /// Whether a record is persisted under the given storage key.
    pub fn has(&self, key: DataKey) -> (r: bool)
        ensures
            r == (match key {
                DataKey::State => self.current_state() is Some,
                DataKey::Data => self.auction_data() is Some,
            }),
    {
        match key {
            DataKey::State => self.state.is_some(),
            DataKey::Data => self.data.is_some(),
        }
    }

    /// Set up the auction: on a free slot with a positive starting bid and
    /// increment, escrow the maximum price from the host and start running.
    /// The whole operation fails without effect if the slot is taken, the
    /// schedule is not positive, or the host cannot cover the maximum price.
    pub fn setup_auction(
        &mut self,
        ledger: &mut TokenLedger,
        now: u32,
        host: u32,
        auction_asset: u32,
        counter_asset: u32,
        starting_bid: i128,
        bid_incr_amount: i128,
        bid_incr_times: u32,
        bid_incr_interval: u32,
    ) -> (r: Result<Status, Error>)
        requires
            old(self).inv(),
            old(ledger).wf(),
            old(self).current_state() is None && starting_bid >= 1 && bid_incr_amount >= 1 ==> {
                &&& bid_incr_interval >= 1
                &&& starting_bid + bid_incr_amount * bid_incr_times <= i128::MAX
                &&& now + bid_incr_interval * bid_incr_times <= u32::MAX
            },
        ensures
            final(self).inv(),
            final(ledger).wf(),
            final(self).escrow_account() == old(self).escrow_account(),
            lattice_step(old(self).current_state(), final(self).current_state()),
            old(self).current_state() is Some ==> r == Ok::<Status, Error>(
                Status::AlreadyInitialised,
            ) && *final(self) == *old(self) && *final(ledger) == *old(ledger),
            old(self).current_state() is None && (starting_bid < 1 || bid_incr_amount < 1) ==> r
                == Ok::<Status, Error>(Status::BidMustBePositive) && *final(self) == *old(self)
                && *final(ledger) == *old(ledger),
            old(self).current_state() is None && starting_bid >= 1 && bid_incr_amount >= 1 ==> ({
                let max_price = starting_bid + bid_incr_amount * bid_incr_times;
                if old(ledger).can_transfer(
                    counter_asset as int,
                    host as int,
                    old(self).escrow_account(),
                    max_price,
                ) {
                    &&& r == Ok::<Status, Error>(Status::Started)
                    &&& final(self).current_state() == Some(State::Running)
                    &&& final(self).auction_data() == Some(
                        (Data {
                            buyer: host,
                            token: auction_asset,
                            counter_token: counter_asset,
                            auction_start_ledger: now,
                            bid_start_amount: starting_bid,
                            bid_incr_amount: bid_incr_amount,
                            bid_incr_interval: bid_incr_interval,
                            bid_incr_times: bid_incr_times,
                            bid_max_amount: max_price as i128,
                        }),
                    )
                    &&& transfer_deltas(
                        *old(ledger),
                        *final(ledger),
                        counter_asset as int,
                        host as int,
                        old(self).escrow_account(),
                        max_price,
                    )
                } else {
                    &&& r == Ok::<Status, Error>(Status::TransferError)
                    &&& *final(self) == *old(self)
                    &&& *final(ledger) == *old(ledger)
                }
            }),
    {
        if self.state.is_some() {
            return Ok(Status::AlreadyInitialised);
        }
        if starting_bid < 1 || bid_incr_amount < 1 {
            return Ok(Status::BidMustBePositive);
        }
        proof {
            assert(bid_incr_amount * (bid_incr_times as i128) >= 0) by (nonlinear_arith)
                requires bid_incr_amount >= 1 && bid_incr_times >= 0;
        }
        let max_increase: i128 = bid_incr_amount * (bid_incr_times as i128);
        let max_price: i128 = starting_bid + max_increase;
        if !ledger.try_transfer(counter_asset, host, self.escrow, max_price) {
            return Ok(Status::TransferError);
        }
        let d = Data {
            buyer: host,
            token: auction_asset,
            counter_token: counter_asset,
            auction_start_ledger: now,
            bid_start_amount: starting_bid,
            bid_incr_amount,
            bid_incr_interval,
            bid_incr_times,
            bid_max_amount: max_price,
        };
        self.data = Some(d);
        self.state = Some(State::Running);
        Ok(Status::Started)
    }

    /// The current bid view: the price the asset would fetch right now,
    /// the upcoming price, and the schedule's maximum. A pure read, only
    /// answered while the auction runs.
    pub fn get_bid_info(&self, now: u32) -> (r: Result<BidInfo, Error>)
        requires
            self.inv(),
            self.current_state() == Some(State::Running) ==> now >= self.auction_data().unwrap()
                .auction_start_ledger,
        ensures
            self.current_state() is None ==> r == Err::<BidInfo, Error>(Error::NotInitialised),
            self.current_state() is Some && self.current_state() != Some(State::Running) ==> r
                == Err::<BidInfo, Error>(Error::NotRunning),
            self.current_state() == Some(State::Running) ==> (r matches Ok(info) && {
                let d = self.auction_data().unwrap();
                &&& info.current_bid == price_at(d, now as int)
                &&& info.current_ledger == now
                &&& info.ledgers_to_next_increase == wait_at(d, now as int)
                &&& info.max_bid == d.bid_max_amount
                &&& info.max_bid_ledger == max_bid_ledger_of(d)
                &&& info.next_bid == next_price_at(d, now as int)
                &&& info.next_bid_ledger == next_ledger_at(d, now as int)
            }),
    {
        match self.state {
            None => Err(Error::NotInitialised),
            Some(State::Running) => {
                let d = self.data.unwrap();
                Ok(compute_bid_info(&d, now))
            },
            Some(_) => Err(Error::NotRunning),
        }
    }

    /// Sell the tracked asset to the escrow at the bid current at `now`. The
    /// price is locked at this very call: one unit of the asset moves from
    /// the seller to the escrow and the price moves back, both or neither.
    pub fn sell_asset(&mut self, ledger: &mut TokenLedger, now: u32, seller: u32) -> (r: Result<
        Status,
        Error,
    >)
        requires
            old(self).inv(),
            old(ledger).wf(),
            old(self).current_state() == Some(State::Running) ==> now >= old(
                self,
            ).auction_data().unwrap().auction_start_ledger,
        ensures
            final(self).inv(),
            final(ledger).wf(),
            final(self).escrow_account() == old(self).escrow_account(),
            final(self).auction_data() == old(self).auction_data(),
            lattice_step(old(self).current_state(), final(self).current_state()),
            old(self).current_state() is None ==> r == Ok::<Status, Error>(Status::NotInitialised)
                && *final(self) == *old(self) && *final(ledger) == *old(ledger),
            old(self).current_state() is Some && old(self).current_state() != Some(State::Running)
                ==> r == Ok::<Status, Error>(Status::NotRunning) && *final(self) == *old(self)
                && *final(ledger) == *old(ledger),
            old(self).current_state() == Some(State::Running) ==> ({
                let d = old(self).auction_data().unwrap();
                let price = price_at(d, now as int);
                if sell_succeeds(*old(ledger), d, seller as int, old(self).escrow_account(), price) {
                    &&& r == Ok::<Status, Error>(Status::Fulfilled)
                    &&& final(self).current_state() == Some(State::Fulfilled)
                    &&& sell_deltas(
                        *old(ledger),
                        *final(ledger),
                        d,
                        seller as int,
                        old(self).escrow_account(),
                        price,
                    )
                } else {
                    &&& r == Ok::<Status, Error>(Status::TransferError)
                    &&& *final(self) == *old(self)
                    &&& same_balances(*old(ledger), *final(ledger))
                }
            }),
    {
        match self.state {
            None => {
                return Ok(Status::NotInitialised);
            },
            Some(State::Running) => {},
            Some(_) => {
                return Ok(Status::NotRunning);
            },
        }
        let d = self.data.unwrap();
        let info = compute_bid_info(&d, now);
        let price: i128 = info.current_bid;
        proof {
            lemma_price_bounds(d, now as int);
        }
        if !ledger.try_transfer(d.token, seller, self.escrow, 1) {
            return Ok(Status::TransferError);
        }
        if !ledger.try_transfer(d.counter_token, self.escrow, seller, price) {
            proof {
                lemma_bal_in_range(*old(ledger), d.token as int, self.escrow as int);
                lemma_bal_in_range(*old(ledger), d.token as int, seller as int);
            }
            let rolled = ledger.try_transfer(d.token, self.escrow, seller, 1);
            proof {
                assert(rolled);
            }
            return Ok(Status::TransferError);
        }
        self.state = Some(State::Fulfilled);
        Ok(Status::Fulfilled)
    }

    /// Terminate the auction. While it runs, the escrowed counter asset goes
    /// back to the host and the auction aborts; once fulfilled, the acquired
    /// asset — and any counter-asset residual — goes to the host and the
    /// auction closes. Every payout happens in full or not at all.
    pub fn close_auction(&mut self, ledger: &mut TokenLedger) -> (r: Result<Status, Error>)
        requires
            old(self).inv(),
            old(ledger).wf(),
        ensures
            final(self).inv(),
            final(ledger).wf(),
            final(self).escrow_account() == old(self).escrow_account(),
            final(self).auction_data() == old(self).auction_data(),
            lattice_step(old(self).current_state(), final(self).current_state()),
            old(self).current_state() is None ==> r == Ok::<Status, Error>(Status::NotInitialised)
                && *final(self) == *old(self) && *final(ledger) == *old(ledger),
            old(self).current_state() == Some(State::Closed) || old(self).current_state() == Some(
                State::Aborted,
            ) ==> r == Ok::<Status, Error>(Status::AlreadyClosed) && *final(self) == *old(self)
                && *final(ledger) == *old(ledger),
            old(self).current_state() == Some(State::Running) ==> ({
                let d = old(self).auction_data().unwrap();
                let escrow = old(self).escrow_account();
                let cb = old(ledger).bal(d.counter_token as int, escrow);
                if old(ledger).can_transfer(d.counter_token as int, escrow, d.buyer as int, cb) {
                    &&& r == Ok::<Status, Error>(Status::Aborted)
                    &&& final(self).current_state() == Some(State::Aborted)
                    &&& transfer_deltas(
                        *old(ledger),
                        *final(ledger),
                        d.counter_token as int,
                        escrow,
                        d.buyer as int,
                        cb,
                    )
                } else {
                    &&& r == Ok::<Status, Error>(Status::TransferError)
                    &&& *final(self) == *old(self)
                    &&& *final(ledger) == *old(ledger)
                }
            }),
            old(self).current_state() == Some(State::Fulfilled) ==> ({
                let d = old(self).auction_data().unwrap();
                let escrow = old(self).escrow_account();
                if close_fulfilled_succeeds(*old(ledger), d, escrow) {
                    &&& r == Ok::<Status, Error>(Status::Closed)
                    &&& final(self).current_state() == Some(State::Closed)
                    &&& close_fulfilled_deltas(*old(ledger), *final(ledger), d, escrow)
                } else {
                    &&& r == Ok::<Status, Error>(Status::TransferError)
                    &&& *final(self) == *old(self)
                    &&& same_balances(*old(ledger), *final(ledger))
                }
            }),
    {
        match self.state {
            None => Ok(Status::NotInitialised),
            Some(State::Closed) | Some(State::Aborted) => Ok(Status::AlreadyClosed),
            Some(State::Running) => {
                let d = self.data.unwrap();
                let cb = ledger.balance(d.counter_token, self.escrow);
                if !ledger.try_transfer(d.counter_token, self.escrow, d.buyer, cb) {
                    return Ok(Status::TransferError);
                }
                self.state = Some(State::Aborted);
                Ok(Status::Aborted)
            },
            Some(State::Fulfilled) => {
                let d = self.data.unwrap();
                let ghost l0 = *ledger;
                let ghost escrow = self.escrow as int;
                let ghost buyer = d.buyer as int;
                let ghost token = d.token as int;
                let ghost counter = d.counter_token as int;
                let cb = ledger.balance(d.counter_token, self.escrow);
                let ab = ledger.balance(d.token, self.escrow);
                proof {
                    lemma_bal_in_range(l0, token, escrow);
                    lemma_bal_in_range(l0, token, buyer);
                    lemma_bal_in_range(l0, counter, escrow);
                    lemma_bal_in_range(l0, counter, buyer);
                }
                if !ledger.try_transfer(d.token, self.escrow, d.buyer, ab) {
                    return Ok(Status::TransferError);
                }
                let ghost l1 = *ledger;
                if cb > 0 {
                    if !ledger.try_transfer(d.counter_token, self.escrow, d.buyer, cb) {
                        proof {
                            assert(l1.bal(counter, escrow) == bal_after(
                                l0,
                                token,
                                escrow,
                                buyer,
                                ab as int,
                                counter,
                                escrow,
                            ));
                            assert(l1.bal(counter, buyer) == bal_after(
                                l0,
                                token,
                                escrow,
                                buyer,
                                ab as int,
                                counter,
                                buyer,
                            ));
                            assert(!close_fulfilled_succeeds(l0, d, escrow));
                            assert(l1.bal(token, buyer) >= ab);
                            assert(escrow == buyer || l1.bal(token, escrow) + ab <= i128::MAX);
                        }
                        let rolled = ledger.try_transfer(d.token, d.buyer, self.escrow, ab);
                        proof {
                            assert(rolled);
                            assert forall|qa: int, qh: int| #[trigger] ledger.bal(qa, qh)
                                == l0.bal(qa, qh) by {
                                assert(l1.bal(qa, qh) == bal_after(
                                    l0,
                                    token,
                                    escrow,
                                    buyer,
                                    ab as int,
                                    qa,
                                    qh,
                                ));
                            }
                        }
                        return Ok(Status::TransferError);
                    }
                }
                proof {
                    if cb > 0 {
                        assert(l1.bal(counter, escrow) == bal_after(
                            l0,
                            token,
                            escrow,
                            buyer,
                            ab as int,
                            counter,
                            escrow,
                        ));
                        assert(l1.bal(counter, buyer) == bal_after(
                            l0,
                            token,
                            escrow,
                            buyer,
                            ab as int,
                            counter,
                            buyer,
                        ));
                    }
                    assert(close_fulfilled_succeeds(l0, d, escrow));
                    assert forall|qa: int, qh: int| #[trigger] ledger.bal(qa, qh) == l0.bal(qa, qh)
                        + (if qa == token && qh == escrow { -(ab as int) } else { 0 })
                        + (if qa == token && qh == buyer { ab as int } else { 0 })
                        + (if qa == counter && qh == escrow { -(cb as int) } else { 0 })
                        + (if qa == counter && qh == buyer { cb as int } else { 0 }) by {
                        assert(l1.bal(qa, qh) == bal_after(
                            l0,
                            token,
                            escrow,
                            buyer,
                            ab as int,
                            qa,
                            qh,
                        ));
                    }
                    assert(close_fulfilled_deltas(l0, *ledger, d, escrow));
                }
                self.state = Some(State::Closed);
                Ok(Status::Closed)
            },
        }
    }

    /// Clear a terminal auction's records, freeing the slot for a new setup.
    pub fn reset_auction(&mut self) -> (r: Result<Status, Error>)
        requires
            old(self).inv(),
        ensures
            final(self).inv(),
            final(self).escrow_account() == old(self).escrow_account(),
            lattice_step(old(self).current_state(), final(self).current_state()),
            old(self).current_state() is None ==> r == Err::<Status, Error>(Error::NotInitialised)
                && *final(self) == *old(self),
            old(self).current_state() == Some(State::Closed) || old(self).current_state() == Some(
                State::Aborted,
            ) ==> r == Ok::<Status, Error>(Status::Reset) && final(self).current_state() is None
                && final(self).auction_data() is None,
            old(self).current_state() == Some(State::Running) || old(self).current_state() == Some(
                State::Fulfilled,
            ) ==> r == Err::<Status, Error>(Error::NotYetClosed) && *final(self) == *old(self),
    {
        match self.state {
            None => Err(Error::NotInitialised),
            Some(State::Closed) | Some(State::Aborted) => {
                self.state = None;
                self.data = None;
                Ok(Status::Reset)
            },
            Some(_) => Err(Error::NotYetClosed),
        }
    }
}

} // verus!
