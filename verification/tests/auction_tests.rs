use dutch_auction::auction::AuctionContract;
use dutch_auction::ledger::TokenLedger;
use dutch_auction::types::{DataKey, Error, State, Status};

// Account and asset identifiers used across the tests.
const HOST: u32 = 1;
const SELLER: u32 = 2;
const CONTRACT: u32 = 3;
const ASSET: u32 = 10;
const COUNTER_ASSET: u32 = 20;

fn calculate_bid(
    current_ledger: u32,
    start_bid: i128,
    start_ledger: u32,
    incr_amount: i128,
    incr_times: u32,
    incr_interval: u32,
) -> i128 {
    let ledgers_passed = current_ledger - start_ledger;
    let times_increased = core::cmp::min(ledgers_passed / incr_interval, incr_times);

    let current_bid = start_bid + (incr_amount * times_increased as i128);

    current_bid
}

#[test]
fn test_setup() {
    let sell_after_ledger: u32 = 567;

    let host = HOST;
    let seller = SELLER;
    let contract_id = CONTRACT;

    // Create and provide the seller with an NFT to sell
    let mut ledger = TokenLedger::new();
    ledger.mint(ASSET, seller, 1);
    assert_eq!(ledger.balance(ASSET, seller), 1);
    assert_eq!(ledger.balance(ASSET, host), 0);

    // Create and distribute counter-asset
    ledger.mint(COUNTER_ASSET, host, 100_000_000);
    assert_eq!(ledger.balance(COUNTER_ASSET, seller), 0);
    assert_eq!(ledger.balance(COUNTER_ASSET, host), 100_000_000);
    println!("Assets generated and distributed. Starting contract tests.");

    // Generate an auction contract
    let mut auction = AuctionContract::new(contract_id);

    let test_starting_bid: i128 = 1000;
    let test_bid_incr_amount: i128 = 100;
    let test_bid_incr_times: u32 = 10;
    let test_bid_incr_interval: u32 = 100;

    let auction_start_ledger: u32 = 0;
    let mut current_ledger: u32 = auction_start_ledger;

    // Set up the auction with sensible values
    let test_setup = auction.setup_auction(
        &mut ledger,
        current_ledger,
        host,
        ASSET,
        COUNTER_ASSET,
        test_starting_bid,
        test_bid_incr_amount,
        test_bid_incr_times,
        test_bid_incr_interval,
    );

    let test_max_bid = test_starting_bid + (test_bid_incr_amount * test_bid_incr_times as i128);

    assert_eq!(test_setup, Ok(Status::Started));
    assert_eq!(ledger.balance(COUNTER_ASSET, contract_id), test_max_bid);

    // Attempt to set up the auction again, expected to fail since the auction is already running
    let test_setup = auction.setup_auction(
        &mut ledger,
        current_ledger,
        host,
        ASSET,
        COUNTER_ASSET,
        10,
        10,
        10,
        10,
    );
    assert_eq!(test_setup, Ok(Status::AlreadyInitialised));

    println!("Auction created.");

    // Check if get_bid_info returns the expected value for the current bid.
    let mut test_get_bid_info = auction.get_bid_info(current_ledger).unwrap();
    let mut current_bid = calculate_bid(
        current_ledger,
        test_starting_bid,
        auction_start_ledger,
        test_bid_incr_amount,
        test_bid_incr_times,
        test_bid_incr_interval,
    );
    assert_eq!(current_bid, test_get_bid_info.current_bid);

    println!("Bid info verified: bid is {} at ledger {}", current_bid, current_ledger);

    // Advance the ledger sequence as many times as we increase the price.
    // Check the price information is as expected.
    // Then advance two more times, beyond the maximum and check the price
    for _ in 0..test_bid_incr_times + 2 {
        // Advance the ledger up to 1 ledger before price increase
        current_ledger += test_bid_incr_interval - 1;

        test_get_bid_info = auction.get_bid_info(current_ledger).unwrap();
        current_bid = calculate_bid(
            current_ledger,
            test_starting_bid,
            auction_start_ledger,
            test_bid_incr_amount,
            test_bid_incr_times,
            test_bid_incr_interval,
        );
        assert_eq!(current_bid, test_get_bid_info.current_bid);

        // Advance the ledger 1 more, to the ledger of price increase
        current_ledger += 1;

        test_get_bid_info = auction.get_bid_info(current_ledger).unwrap();
        current_bid = calculate_bid(
            current_ledger,
            test_starting_bid,
            auction_start_ledger,
            test_bid_incr_amount,
            test_bid_incr_times,
            test_bid_incr_interval,
        );
        assert_eq!(current_bid, test_get_bid_info.current_bid);
        println!("Bid info verified: bid is {} at ledger {}", current_bid, current_ledger);
    }
    println!("");

    // Set the ledger to the desired ledger sequence for testing the sale
    current_ledger = sell_after_ledger;

    current_bid = calculate_bid(
        current_ledger,
        test_starting_bid,
        auction_start_ledger,
        test_bid_incr_amount,
        test_bid_incr_times,
        test_bid_incr_interval,
    );

    println!("Ledger sequence reset to {} to test the sale.", current_ledger);
    println!("Preparing to sell asset at ledger {}.", current_ledger);
    println!(
        "The seller has {} of the auction asset and {} of the counter-asset.",
        ledger.balance(ASSET, seller),
        ledger.balance(COUNTER_ASSET, seller)
    );
    println!(
        "The contract has {} of the auction asset and {} of the counter-asset.",
        ledger.balance(ASSET, contract_id),
        ledger.balance(COUNTER_ASSET, contract_id)
    );

    // Sell the asset to the auction and verify the correct status is returned. Log the sell price
    let test_sell = auction.sell_asset(&mut ledger, current_ledger, seller);
    assert_eq!(test_sell, Ok(Status::Fulfilled));

    let sell_price = current_bid;

    // Check that seller has one less asset, and that it has gained the sell price
    assert_eq!(ledger.balance(ASSET, seller), 0);
    assert_eq!(ledger.balance(COUNTER_ASSET, seller), sell_price);

    // Check that the contract has received the asset, and that the host has not (yet).
    // Check that the contracts balance of the couter-asset matches expectation
    assert_eq!(ledger.balance(ASSET, contract_id), 1);
    assert_eq!(ledger.balance(ASSET, host), 0);
    assert_eq!(
        ledger.balance(COUNTER_ASSET, contract_id),
        (test_starting_bid + (test_bid_incr_amount * test_bid_incr_times as i128)) - sell_price
    );
    println!("Sold the asset at ledger {} for {}. ", current_ledger, sell_price);
    println!(
        "The seller now has {} of the auction asset and {} of the counter-asset.",
        ledger.balance(ASSET, seller),
        ledger.balance(COUNTER_ASSET, seller)
    );
    println!(
        "The contract now has {} of the auction asset and {} of the counter-asset.",
        ledger.balance(ASSET, contract_id),
        ledger.balance(COUNTER_ASSET, contract_id)
    );
    println!("");

    // Try to iniate sale again
    let test_sell = auction.sell_asset(&mut ledger, current_ledger, seller);
    assert_eq!(test_sell, Ok(Status::NotRunning));

    // Check if the balances are not changed
    assert_eq!(ledger.balance(ASSET, seller), 0);
    assert_eq!(ledger.balance(COUNTER_ASSET, seller), sell_price);
    assert_eq!(ledger.balance(ASSET, contract_id), 1);
    assert_eq!(ledger.balance(ASSET, host), 0);
    assert_eq!(ledger.balance(COUNTER_ASSET, contract_id), test_max_bid - sell_price);

    println!("Preparing to close the auction");
    println!(
        "The host has {} of the auction asset and {} of the counter-asset.",
        ledger.balance(ASSET, host),
        ledger.balance(COUNTER_ASSET, host)
    );
    println!("");

    // Attempt to close the auction
    let test_close = auction.close_auction(&mut ledger);
    assert_eq!(test_close, Ok(Status::Closed));

    // Verify the balances are as expected: Seller balances unchanged, contract balances reduces, host balances increased
    assert_eq!(ledger.balance(ASSET, seller), 0);
    assert_eq!(ledger.balance(ASSET, contract_id), 0);
    assert_eq!(ledger.balance(ASSET, host), 1);
    assert_eq!(ledger.balance(COUNTER_ASSET, seller), sell_price);
    assert_eq!(ledger.balance(COUNTER_ASSET, contract_id), 0);
    assert_eq!(ledger.balance(COUNTER_ASSET, host), 100_000_000 - sell_price);

    println!("Closed the auction");
    println!(
        "The seller now has {} of the auction asset and {} of the counter-asset.",
        ledger.balance(ASSET, seller),
        ledger.balance(COUNTER_ASSET, seller)
    );
    println!(
        "The contract now has {} of the auction asset and {} of the counter-asset.",
        ledger.balance(ASSET, contract_id),
        ledger.balance(COUNTER_ASSET, contract_id)
    );
    println!(
        "The host now has {} of the auction asset and {} of the counter-asset.",
        ledger.balance(ASSET, host),
        ledger.balance(COUNTER_ASSET, host)
    );

    println!("");

    // Attempt to close the auction a second time
    let test_close = auction.close_auction(&mut ledger);
    assert_eq!(test_close, Ok(Status::AlreadyClosed));

    // Verify the balances have not changed
    assert_eq!(ledger.balance(ASSET, seller), 0);
    assert_eq!(ledger.balance(ASSET, contract_id), 0);
    assert_eq!(ledger.balance(ASSET, host), 1);
    assert_eq!(ledger.balance(COUNTER_ASSET, seller), sell_price);
    assert_eq!(ledger.balance(COUNTER_ASSET, contract_id), 0);
    assert_eq!(ledger.balance(COUNTER_ASSET, host), 100_000_000 - sell_price);

    println!("Tests completed!");
    println!("");
}

#[test]
fn i128() {
    let i: i128 = 1000;
    let j: i128 = 100;

    println!("First: {} has hi {} and lo {}", i, (i >> 64) as i64, i as u64);
    println!("Second: {} has hi {} and lo {}", j, (j >> 64) as i64, j as u64);
}

/// Build a running auction over freshly minted holdings, with the schedule
/// `start_price=1000, step_amount=100, step_count=10, step_interval=100`.
fn running_auction() -> (AuctionContract, TokenLedger) {
    let mut ledger = TokenLedger::new();
    ledger.mint(ASSET, SELLER, 1);
    ledger.mint(COUNTER_ASSET, HOST, 100_000_000);
    let mut auction = AuctionContract::new(CONTRACT);
    let r = auction.setup_auction(&mut ledger, 0, HOST, ASSET, COUNTER_ASSET, 1000, 100, 10, 100);
    assert_eq!(r, Ok(Status::Started));
    (auction, ledger)
}

#[test]
fn price_schedule_examples() {
    let (auction, _ledger) = running_auction();
    assert_eq!(auction.get_bid_info(0).unwrap().current_bid, 1000);
    assert_eq!(auction.get_bid_info(99).unwrap().current_bid, 1000);
    assert_eq!(auction.get_bid_info(100).unwrap().current_bid, 1100);
    assert_eq!(auction.get_bid_info(1000).unwrap().current_bid, 2000);
    assert_eq!(auction.get_bid_info(1500).unwrap().current_bid, 2000);
}

#[test]
fn accept_at_examples_locks_price() {
    let (mut auction, mut ledger) = running_auction();
    let r = auction.sell_asset(&mut ledger, 567, SELLER);
    assert_eq!(r, Ok(Status::Fulfilled));
    assert_eq!(ledger.balance(COUNTER_ASSET, SELLER), 1500);
}

#[test]
fn price_is_monotonic_and_capped() {
    let (auction, _ledger) = running_auction();
    let mut previous: i128 = 0;
    let mut t: u32 = 0;
    while t <= 1200 {
        let bid = auction.get_bid_info(t).unwrap().current_bid;
        assert!(bid >= previous);
        assert!(bid <= 2000);
        previous = bid;
        t += 7;
    }
}

#[test]
fn quote_saturates_at_max() {
    let (auction, _ledger) = running_auction();
    let info = auction.get_bid_info(1000).unwrap();
    assert_eq!(info.current_bid, 2000);
    assert_eq!(info.next_bid, 2000);
    assert_eq!(info.next_bid_ledger, 0);
    assert_eq!(info.ledgers_to_next_increase, 0);
    assert_eq!(info.max_bid, 2000);
    assert_eq!(info.max_bid_ledger, 1000);
}

#[test]
fn quote_before_saturation_reports_next_step() {
    let (auction, _ledger) = running_auction();
    let info = auction.get_bid_info(567).unwrap();
    assert_eq!(info.current_bid, 1500);
    assert_eq!(info.current_ledger, 567);
    assert_eq!(info.next_bid, 1600);
    assert_eq!(info.next_bid_ledger, 600);
    assert_eq!(info.ledgers_to_next_increase, 33);
    assert_eq!(info.max_bid, 2000);
    assert_eq!(info.max_bid_ledger, 1000);
}

#[test]
fn zero_step_count_saturates_immediately() {
    let mut ledger = TokenLedger::new();
    ledger.mint(COUNTER_ASSET, HOST, 5000);
    let mut auction = AuctionContract::new(CONTRACT);
    let r = auction.setup_auction(&mut ledger, 7, HOST, ASSET, COUNTER_ASSET, 1000, 100, 0, 100);
    assert_eq!(r, Ok(Status::Started));
    // The escrowed maximum is just the starting bid.
    assert_eq!(ledger.balance(COUNTER_ASSET, CONTRACT), 1000);
    let info = auction.get_bid_info(7).unwrap();
    assert_eq!(info.current_bid, 1000);
    assert_eq!(info.next_bid, 1000);
    assert_eq!(info.ledgers_to_next_increase, 0);
    let info = auction.get_bid_info(4000).unwrap();
    assert_eq!(info.current_bid, 1000);
}

#[test]
fn setup_rejects_non_positive_schedule() {
    let mut ledger = TokenLedger::new();
    ledger.mint(COUNTER_ASSET, HOST, 5000);
    let mut auction = AuctionContract::new(CONTRACT);
    let r = auction.setup_auction(&mut ledger, 0, HOST, ASSET, COUNTER_ASSET, 0, 100, 10, 100);
    assert_eq!(r, Ok(Status::BidMustBePositive));
    let r = auction.setup_auction(&mut ledger, 0, HOST, ASSET, COUNTER_ASSET, 1000, 0, 10, 100);
    assert_eq!(r, Ok(Status::BidMustBePositive));
    // Nothing was escrowed and the slot is still free.
    assert_eq!(ledger.balance(COUNTER_ASSET, CONTRACT), 0);
    assert_eq!(auction.state(), None);
}

#[test]
fn setup_fails_when_host_cannot_cover_max_price() {
    let mut ledger = TokenLedger::new();
    ledger.mint(COUNTER_ASSET, HOST, 1999);
    let mut auction = AuctionContract::new(CONTRACT);
    let r = auction.setup_auction(&mut ledger, 0, HOST, ASSET, COUNTER_ASSET, 1000, 100, 10, 100);
    assert_eq!(r, Ok(Status::TransferError));
    // The failed setup changed nothing.
    assert_eq!(ledger.balance(COUNTER_ASSET, HOST), 1999);
    assert_eq!(ledger.balance(COUNTER_ASSET, CONTRACT), 0);
    assert_eq!(auction.state(), None);
}

#[test]
fn operations_before_setup_report_not_initialised() {
    let mut ledger = TokenLedger::new();
    let mut auction = AuctionContract::new(CONTRACT);
    assert_eq!(auction.get_bid_info(0), Err(Error::NotInitialised));
    assert_eq!(auction.sell_asset(&mut ledger, 0, SELLER), Ok(Status::NotInitialised));
    assert_eq!(auction.close_auction(&mut ledger), Ok(Status::NotInitialised));
    assert_eq!(auction.reset_auction(), Err(Error::NotInitialised));
}

#[test]
fn quote_after_fulfilment_reports_not_running() {
    let (mut auction, mut ledger) = running_auction();
    assert_eq!(auction.sell_asset(&mut ledger, 0, SELLER), Ok(Status::Fulfilled));
    assert_eq!(auction.get_bid_info(0), Err(Error::NotRunning));
}

#[test]
fn sale_without_the_asset_changes_nothing() {
    let mut ledger = TokenLedger::new();
    ledger.mint(COUNTER_ASSET, HOST, 100_000_000);
    let mut auction = AuctionContract::new(CONTRACT);
    let r = auction.setup_auction(&mut ledger, 0, HOST, ASSET, COUNTER_ASSET, 1000, 100, 10, 100);
    assert_eq!(r, Ok(Status::Started));
    // The seller holds no unit of the tracked asset, so the first custody
    // leg fails and the whole operation rolls back.
    let r = auction.sell_asset(&mut ledger, 50, SELLER);
    assert_eq!(r, Ok(Status::TransferError));
    assert_eq!(auction.state(), Some(State::Running));
    assert_eq!(ledger.balance(ASSET, CONTRACT), 0);
    assert_eq!(ledger.balance(COUNTER_ASSET, CONTRACT), 2000);
    assert_eq!(ledger.balance(COUNTER_ASSET, SELLER), 0);
}

#[test]
fn accept_twice_reports_not_running_with_balances_unchanged() {
    let (mut auction, mut ledger) = running_auction();
    assert_eq!(auction.sell_asset(&mut ledger, 567, SELLER), Ok(Status::Fulfilled));
    let seller_counter = ledger.balance(COUNTER_ASSET, SELLER);
    let escrow_counter = ledger.balance(COUNTER_ASSET, CONTRACT);
    assert_eq!(auction.sell_asset(&mut ledger, 800, SELLER), Ok(Status::NotRunning));
    assert_eq!(ledger.balance(COUNTER_ASSET, SELLER), seller_counter);
    assert_eq!(ledger.balance(COUNTER_ASSET, CONTRACT), escrow_counter);
    assert_eq!(ledger.balance(ASSET, CONTRACT), 1);
    assert_eq!(ledger.balance(ASSET, SELLER), 0);
}

#[test]
fn terminate_while_running_refunds_host() {
    let (mut auction, mut ledger) = running_auction();
    assert_eq!(ledger.balance(COUNTER_ASSET, HOST), 100_000_000 - 2000);
    let r = auction.close_auction(&mut ledger);
    assert_eq!(r, Ok(Status::Aborted));
    assert_eq!(auction.state(), Some(State::Aborted));
    assert_eq!(ledger.balance(COUNTER_ASSET, HOST), 100_000_000);
    assert_eq!(ledger.balance(COUNTER_ASSET, CONTRACT), 0);
    // Terminating again changes nothing.
    let r = auction.close_auction(&mut ledger);
    assert_eq!(r, Ok(Status::AlreadyClosed));
    assert_eq!(ledger.balance(COUNTER_ASSET, HOST), 100_000_000);
    assert_eq!(ledger.balance(COUNTER_ASSET, CONTRACT), 0);
}

#[test]
fn reset_requires_a_terminal_state() {
    let (mut auction, mut ledger) = running_auction();
    assert_eq!(auction.reset_auction(), Err(Error::NotYetClosed));
    assert_eq!(auction.sell_asset(&mut ledger, 0, SELLER), Ok(Status::Fulfilled));
    assert_eq!(auction.reset_auction(), Err(Error::NotYetClosed));
}

#[test]
fn reset_after_abort_frees_the_slot() {
    let (mut auction, mut ledger) = running_auction();
    assert_eq!(auction.close_auction(&mut ledger), Ok(Status::Aborted));
    assert_eq!(auction.reset_auction(), Ok(Status::Reset));
    assert_eq!(auction.state(), None);
    assert_eq!(auction.data(), None);
    assert!(!auction.has(DataKey::State));
    assert!(!auction.has(DataKey::Data));
    // The slot accepts a fresh auction again.
    let r = auction.setup_auction(&mut ledger, 5, HOST, ASSET, COUNTER_ASSET, 500, 50, 4, 10);
    assert_eq!(r, Ok(Status::Started));
    assert_eq!(ledger.balance(COUNTER_ASSET, CONTRACT), 700);
}

#[test]
fn full_lifecycle_reaches_closed_and_resets() {
    let (mut auction, mut ledger) = running_auction();
    assert!(auction.has(DataKey::State));
    assert!(auction.has(DataKey::Data));
    assert_eq!(auction.state(), Some(State::Running));
    assert_eq!(auction.sell_asset(&mut ledger, 250, SELLER), Ok(Status::Fulfilled));
    assert_eq!(auction.state(), Some(State::Fulfilled));
    assert_eq!(auction.close_auction(&mut ledger), Ok(Status::Closed));
    assert_eq!(auction.state(), Some(State::Closed));
    assert_eq!(auction.reset_auction(), Ok(Status::Reset));
    assert_eq!(auction.state(), None);
}

#[test]
fn custody_totals_are_conserved_across_the_lifecycle() {
    let (mut auction, mut ledger) = running_auction();
    let counter_total = ledger.balance(COUNTER_ASSET, HOST)
        + ledger.balance(COUNTER_ASSET, SELLER)
        + ledger.balance(COUNTER_ASSET, CONTRACT);
    assert_eq!(auction.sell_asset(&mut ledger, 432, SELLER), Ok(Status::Fulfilled));
    assert_eq!(
        ledger.balance(COUNTER_ASSET, HOST)
            + ledger.balance(COUNTER_ASSET, SELLER)
            + ledger.balance(COUNTER_ASSET, CONTRACT),
        counter_total
    );
    assert_eq!(auction.close_auction(&mut ledger), Ok(Status::Closed));
    assert_eq!(
        ledger.balance(COUNTER_ASSET, HOST)
            + ledger.balance(COUNTER_ASSET, SELLER)
            + ledger.balance(COUNTER_ASSET, CONTRACT),
        counter_total
    );
    // The tracked asset unit ends up with the host and nowhere else.
    assert_eq!(ledger.balance(ASSET, HOST), 1);
    assert_eq!(ledger.balance(ASSET, SELLER), 0);
    assert_eq!(ledger.balance(ASSET, CONTRACT), 0);
}

#[test]
fn ledger_transfer_fails_without_funds() {
    let mut ledger = TokenLedger::new();
    ledger.mint(ASSET, HOST, 5);
    assert!(!ledger.try_transfer(ASSET, HOST, SELLER, 6));
    assert_eq!(ledger.balance(ASSET, HOST), 5);
    assert_eq!(ledger.balance(ASSET, SELLER), 0);
    assert!(ledger.try_transfer(ASSET, HOST, SELLER, 5));
    assert_eq!(ledger.balance(ASSET, HOST), 0);
    assert_eq!(ledger.balance(ASSET, SELLER), 5);
}

#[test]
fn ledger_transfer_to_self_keeps_balances() {
    let mut ledger = TokenLedger::new();
    ledger.mint(ASSET, HOST, 5);
    assert!(ledger.try_transfer(ASSET, HOST, HOST, 3));
    assert_eq!(ledger.balance(ASSET, HOST), 5);
    assert!(!ledger.try_transfer(ASSET, HOST, HOST, 6));
    assert_eq!(ledger.balance(ASSET, HOST), 5);
}
