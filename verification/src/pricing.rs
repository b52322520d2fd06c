//! The bid pricing engine: a pure function of the immutable schedule and the
//! current ledger height. All arithmetic is integer-only, so every observer
//! recomputes exactly the same price.

use vstd::arithmetic::div_mod::{
    lemma_fundamental_div_mod, lemma_div_is_ordered, lemma_multiply_divide_lt,
};
use vstd::arithmetic::mul::lemma_mul_inequality;
use vstd::prelude::*;

use crate::types::{BidInfo, Data};

verus! {

/// A well-formed schedule: positive starting bid and increment, a positive
/// interval, the stored maximum equal to the derived one, and a saturation
/// ledger that fits the ledger counter.
pub open spec fn data_wf(d: Data) -> bool {
    &&& d.bid_start_amount >= 1
    &&& d.bid_incr_amount >= 1
    &&& d.bid_incr_interval >= 1
    &&& d.bid_max_amount == d.bid_start_amount + d.bid_incr_amount * d.bid_incr_times
    &&& d.auction_start_ledger + d.bid_incr_interval * d.bid_incr_times <= u32::MAX
}

/// The ledger height at which the bid saturates at its maximum.
pub open spec fn max_bid_ledger_of(d: Data) -> int {
    d.auction_start_ledger + d.bid_incr_interval * d.bid_incr_times
}

/// How many increases have landed by ledger height `now`, before saturation:
/// elapsed ledgers divided by the interval, truncating.
pub open spec fn steps_at(d: Data, now: int) -> int {
    (now - d.auction_start_ledger) / (d.bid_incr_interval as int)
}

/// The bid at ledger height `now`.
pub open spec fn price_at(d: Data, now: int) -> int {
    if now >= max_bid_ledger_of(d) {
        d.bid_max_amount as int
    } else {
        d.bid_start_amount + d.bid_incr_amount * steps_at(d, now)
    }
}

/// The bid after the next scheduled increase; the maximum once saturated.
pub open spec fn next_price_at(d: Data, now: int) -> int {
    if now >= max_bid_ledger_of(d) {
        d.bid_max_amount as int
    } else {
        price_at(d, now) + d.bid_incr_amount
    }
}

/// The ledger height of the next scheduled increase; zero once saturated.
pub open spec fn next_ledger_at(d: Data, now: int) -> int {
    if now >= max_bid_ledger_of(d) {
        0
    } else {
        d.auction_start_ledger + (steps_at(d, now) + 1) * d.bid_incr_interval
    }
}

/// Ledgers left until the next scheduled increase; zero once saturated.
pub open spec fn wait_at(d: Data, now: int) -> int {
    if now >= max_bid_ledger_of(d) {
        0
    } else {
        next_ledger_at(d, now) - now
    }
}

/// Before saturation the step counter stays below the scheduled number of
/// increases, and the next increase lands after `now` but no later than the
/// saturation ledger.
proof fn lemma_steps_bounds(d: Data, now: int)
    requires
        data_wf(d),
        d.auction_start_ledger <= now < max_bid_ledger_of(d),
    ensures
        0 <= steps_at(d, now) < d.bid_incr_times,
        now < d.auction_start_ledger + (steps_at(d, now) + 1) * d.bid_incr_interval,
        (steps_at(d, now) + 1) * d.bid_incr_interval <= d.bid_incr_interval * d.bid_incr_times,
{
    let elapsed = now - d.auction_start_ledger;
    let iv = d.bid_incr_interval as int;
    let steps = steps_at(d, now);
    assert(elapsed < iv * d.bid_incr_times);
    lemma_multiply_divide_lt(elapsed, iv, d.bid_incr_times as int);
    assert(steps < d.bid_incr_times);
    assert(elapsed / iv >= 0) by (nonlinear_arith)
        requires elapsed >= 0 && iv >= 1;
    lemma_fundamental_div_mod(elapsed, iv);
    assert(elapsed == iv * (elapsed / iv) + elapsed % iv);
    assert(elapsed < iv * steps + iv);
    assert(iv * steps + iv == (steps + 1) * iv) by (nonlinear_arith);
    assert((steps + 1) * iv <= iv * d.bid_incr_times) by (nonlinear_arith)
        requires steps + 1 <= d.bid_incr_times as int && iv >= 1;
}

/// The bid never leaves the band between the starting bid and the maximum.
pub proof fn lemma_price_bounds(d: Data, now: int)
    requires
        data_wf(d),
        now >= d.auction_start_ledger,
    ensures
        d.bid_start_amount <= price_at(d, now) <= d.bid_max_amount,
{
    if now >= max_bid_ledger_of(d) {
        assert(d.bid_incr_amount * d.bid_incr_times >= 0) by (nonlinear_arith)
            requires d.bid_incr_amount >= 1 && d.bid_incr_times >= 0;
    } else {
        lemma_steps_bounds(d, now);
        let steps = steps_at(d, now);
        lemma_mul_inequality(0, steps, d.bid_incr_amount as int);
        assert(steps * d.bid_incr_amount == d.bid_incr_amount * steps) by (nonlinear_arith);
        lemma_mul_inequality(steps, d.bid_incr_times as int, d.bid_incr_amount as int);
        assert(d.bid_incr_times * d.bid_incr_amount == d.bid_incr_amount * d.bid_incr_times)
            by (nonlinear_arith);
    }
}

/// Compute the full bid view at ledger height `now`.
///
/// Before saturation the current bid is the starting bid plus one increment
/// per completed interval; the first increase lands exactly at
/// `auction_start_ledger + bid_incr_interval`, never early. Once `now`
/// reaches the saturation ledger the bid stays at the stored maximum and no
/// further increase is scheduled.
pub fn compute_bid_info(d: &Data, now: u32) -> (r: BidInfo)
    requires
        data_wf(*d),
        now >= d.auction_start_ledger,
    ensures
        r.current_bid == price_at(*d, now as int),
        r.current_ledger == now,
        r.ledgers_to_next_increase == wait_at(*d, now as int),
        r.max_bid == d.bid_max_amount,
        r.max_bid_ledger == max_bid_ledger_of(*d),
        r.next_bid == next_price_at(*d, now as int),
        r.next_bid_ledger == next_ledger_at(*d, now as int),
{
    let max_bid_ledger: u32 = d.auction_start_ledger + d.bid_incr_interval * d.bid_incr_times;
    if now >= max_bid_ledger {
        BidInfo {
            current_bid: d.bid_max_amount,
            current_ledger: now,
            ledgers_to_next_increase: 0,
            max_bid: d.bid_max_amount,
            max_bid_ledger,
            next_bid: d.bid_max_amount,
            next_bid_ledger: 0,
        }
    } else {
        let ledgers_passed: u32 = now - d.auction_start_ledger;
        let times_increased: u32 = ledgers_passed / d.bid_incr_interval;
        proof {
            lemma_steps_bounds(*d, now as int);
            lemma_price_bounds(*d, now as int);
            lemma_mul_inequality(
                times_increased as int,
                d.bid_incr_times as int,
                d.bid_incr_amount as int,
            );
            assert(times_increased * d.bid_incr_amount == d.bid_incr_amount * times_increased)
                by (nonlinear_arith);
            assert(d.bid_incr_times * d.bid_incr_amount == d.bid_incr_amount * d.bid_incr_times)
                by (nonlinear_arith);
            lemma_mul_inequality(
                times_increased + 1 as int,
                d.bid_incr_times as int,
                d.bid_incr_amount as int,
            );
            assert((times_increased + 1 as int) * d.bid_incr_amount
                == d.bid_incr_amount * times_increased + d.bid_incr_amount) by (nonlinear_arith);
        }
        let current_bid: i128 = d.bid_start_amount + d.bid_incr_amount * (times_increased as i128);
        let next_bid: i128 = current_bid + d.bid_incr_amount;
        let next_bid_ledger: u32 =
            d.auction_start_ledger + (times_increased + 1) * d.bid_incr_interval;
        let ledgers_to_next_increase: u32 = next_bid_ledger - now;
        BidInfo {
            current_bid,
            current_ledger: now,
            ledgers_to_next_increase,
            max_bid: d.bid_max_amount,
            max_bid_ledger,
            next_bid,
            next_bid_ledger,
        }
    }
}

/// Monotonic pricing: at any two ledger heights from the start of the
/// auction on, the earlier bid never exceeds the later one, and no bid
/// exceeds the stored maximum.
pub proof fn lemma_price_monotonic(d: Data, t1: int, t2: int)
    requires
        data_wf(d),
        d.auction_start_ledger <= t1 <= t2,
    ensures
        price_at(d, t1) <= price_at(d, t2),
        price_at(d, t1) <= d.bid_max_amount,
{
    lemma_price_bounds(d, t1);
    lemma_price_bounds(d, t2);
    if t2 < max_bid_ledger_of(d) {
        let iv = d.bid_incr_interval as int;
        lemma_div_is_ordered(t1 - d.auction_start_ledger, t2 - d.auction_start_ledger, iv);
        lemma_mul_inequality(steps_at(d, t1), steps_at(d, t2), d.bid_incr_amount as int);
        assert(steps_at(d, t1) * d.bid_incr_amount == d.bid_incr_amount * steps_at(d, t1))
            by (nonlinear_arith);
        assert(steps_at(d, t2) * d.bid_incr_amount == d.bid_incr_amount * steps_at(d, t2))
            by (nonlinear_arith);
    }
}

/// Saturation: from the saturation ledger on, the bid sits at the stored
/// maximum, as does the upcoming bid, and no further increase is scheduled.
pub proof fn lemma_price_saturates(d: Data, now: int)
    requires
        data_wf(d),
        now >= max_bid_ledger_of(d),
    ensures
        price_at(d, now) == d.bid_max_amount,
        next_price_at(d, now) == d.bid_max_amount,
        wait_at(d, now) == 0,
        next_ledger_at(d, now) == 0,
{
}

} // verus!
