use auction_contract::auction::{AuctionContract, AuctionError, AuthorizedCaller, Party};
use auction_contract::ledger::Ledger;

const SELLER: u64 = 1;
const BIDDER1: u64 = 2;
const BIDDER2: u64 = 3;
const ASSET: u64 = 7;
const BID: u64 = 8;

fn auth(principal: u64) -> AuthorizedCaller {
    AuthorizedCaller { principal }
}

/// A created auction over 1 unit of the asset, starting at time 0, with
/// the escrow transfer already executed.
fn setup(reserve: i128, duration: u64) -> (AuctionContract, Ledger) {
    let mut auction = AuctionContract::new();
    let mut ledger = Ledger::new();
    ledger.mint(Party::Account(SELLER), ASSET, 1).unwrap();
    let ts = auction
        .create_auction(&auth(SELLER), SELLER, ASSET, 1, BID, reserve, duration, 0)
        .unwrap();
    ledger.apply_all(&ts).unwrap();
    (auction, ledger)
}

#[test]
fn test_successful_auction_flow() {
    let (mut auction, mut ledger) = setup(10, 3600);

    // Bidder 1 bids 15
    ledger.mint(Party::Account(BIDDER1), BID, 100).unwrap();
    let ts = auction.place_bid(&auth(BIDDER1), BIDDER1, 15, 1).unwrap();
    ledger.apply_all(&ts).unwrap();
    assert_eq!(ledger.balance_of(Party::Account(BIDDER1), BID), 85);

    // Bidder 2 bids 20
    ledger.mint(Party::Account(BIDDER2), BID, 100).unwrap();
    let ts = auction.place_bid(&auth(BIDDER2), BIDDER2, 20, 2).unwrap();
    ledger.apply_all(&ts).unwrap();

    // Bidder 1 should be refunded automatically
    assert_eq!(ledger.balance_of(Party::Account(BIDDER1), BID), 100);
    assert_eq!(ledger.balance_of(Party::Account(BIDDER2), BID), 80);

    // Advance time beyond end
    let ts = auction.settle(3601).unwrap();
    ledger.apply_all(&ts).unwrap();

    // Seller gets highest bid (20)
    assert_eq!(ledger.balance_of(Party::Account(SELLER), BID), 20);
    // Bidder 2 gets asset (1)
    assert_eq!(ledger.balance_of(Party::Account(BIDDER2), ASSET), 1);
}

#[test]
fn test_bid_lower_than_reserve() {
    let (mut auction, mut ledger) = setup(100, 3600);

    ledger.mint(Party::Account(BIDDER1), BID, 50).unwrap();
    let r = auction.place_bid(&auth(BIDDER1), BIDDER1, 50, 1);
    assert_eq!(r, Err(AuctionError::BelowReserve));

    // No balance change, no state mutation
    assert_eq!(ledger.balance_of(Party::Account(BIDDER1), BID), 50);
    assert_eq!(auction.get_highest_bid(), (None, 0));
}

#[test]
fn test_bid_after_end() {
    let (mut auction, mut ledger) = setup(10, 3600);

    ledger.mint(Party::Account(BIDDER1), BID, 50).unwrap();
    let r = auction.place_bid(&auth(BIDDER1), BIDDER1, 50, 3601);
    assert_eq!(r, Err(AuctionError::AuctionEnded));

    // No state mutation
    assert_eq!(ledger.balance_of(Party::Account(BIDDER1), BID), 50);
    assert_eq!(auction.get_highest_bid(), (None, 0));
}

#[test]
fn test_settle_with_no_bids() {
    let (mut auction, mut ledger) = setup(10, 3600);

    let ts = auction.settle(3601).unwrap();
    ledger.apply_all(&ts).unwrap();

    // Asset returned to seller, and no bid-currency moved at all
    assert_eq!(ledger.balance_of(Party::Account(SELLER), ASSET), 1);
    assert_eq!(ledger.balance_of(Party::Account(SELLER), BID), 0);
    assert_eq!(ledger.balance_of(Party::Custody, ASSET), 0);
    assert_eq!(ledger.balance_of(Party::Custody, BID), 0);
}

#[test]
fn test_settle_too_early() {
    let (mut auction, _ledger) = setup(10, 3600);

    let r = auction.settle(0);
    assert_eq!(r, Err(AuctionError::NotEnded));
}

#[test]
fn test_create_twice_fails() {
    let (mut auction, mut ledger) = setup(10, 3600);
    let before = auction.get_auction_details().unwrap();

    ledger.mint(Party::Account(BIDDER1), ASSET, 5).unwrap();
    let r = auction.create_auction(&auth(BIDDER1), BIDDER1, ASSET, 5, BID, 1, 60, 0);
    assert_eq!(r, Err(AuctionError::AlreadyExists));

    // First auction's state untouched
    let after = auction.get_auction_details().unwrap();
    assert_eq!(before, after);
    assert_eq!(ledger.balance_of(Party::Custody, ASSET), 1);
}

#[test]
fn test_settle_twice_fails() {
    let (mut auction, mut ledger) = setup(10, 3600);

    let ts = auction.settle(3601).unwrap();
    ledger.apply_all(&ts).unwrap();

    let r = auction.settle(4000);
    assert_eq!(r, Err(AuctionError::AlreadySettled));

    // A bid after settlement fails the same way
    ledger.mint(Party::Account(BIDDER1), BID, 50).unwrap();
    let r = auction.place_bid(&auth(BIDDER1), BIDDER1, 50, 3600);
    assert_eq!(r, Err(AuctionError::AlreadySettled));
}

#[test]
fn test_tie_bid_rejected() {
    let (mut auction, mut ledger) = setup(10, 3600);

    ledger.mint(Party::Account(BIDDER1), BID, 100).unwrap();
    ledger.mint(Party::Account(BIDDER2), BID, 100).unwrap();

    let ts = auction.place_bid(&auth(BIDDER1), BIDDER1, 15, 1).unwrap();
    ledger.apply_all(&ts).unwrap();

    // A tie is rejected: the first bidder at 15 keeps priority
    let r = auction.place_bid(&auth(BIDDER2), BIDDER2, 15, 2);
    assert_eq!(r, Err(AuctionError::BidTooLow));
    // So is anything lower
    let r = auction.place_bid(&auth(BIDDER2), BIDDER2, 14, 2);
    assert_eq!(r, Err(AuctionError::BidTooLow));
    assert_eq!(auction.get_highest_bid(), (Some(BIDDER1), 15));

    // Strictly more is accepted and strictly increases the highest bid
    let ts = auction.place_bid(&auth(BIDDER2), BIDDER2, 16, 3).unwrap();
    ledger.apply_all(&ts).unwrap();
    assert_eq!(auction.get_highest_bid(), (Some(BIDDER2), 16));
}

#[test]
fn test_custody_tracks_highest_bid() {
    let (mut auction, mut ledger) = setup(10, 3600);
    assert_eq!(ledger.balance_of(Party::Custody, ASSET), 1);
    assert_eq!(ledger.balance_of(Party::Custody, BID), 0);

    ledger.mint(Party::Account(BIDDER1), BID, 100).unwrap();
    ledger.mint(Party::Account(BIDDER2), BID, 100).unwrap();

    let ts = auction.place_bid(&auth(BIDDER1), BIDDER1, 15, 1).unwrap();
    ledger.apply_all(&ts).unwrap();
    assert_eq!(ledger.balance_of(Party::Custody, BID), 15);

    let ts = auction.place_bid(&auth(BIDDER2), BIDDER2, 40, 2).unwrap();
    ledger.apply_all(&ts).unwrap();
    // Exactly the current highest bid is in custody: earlier bids left whole
    assert_eq!(ledger.balance_of(Party::Custody, BID), 40);
    assert_eq!(ledger.balance_of(Party::Custody, ASSET), 1);

    let ts = auction.settle(3601).unwrap();
    ledger.apply_all(&ts).unwrap();
    assert_eq!(ledger.balance_of(Party::Custody, BID), 0);
    assert_eq!(ledger.balance_of(Party::Custody, ASSET), 0);
}

#[test]
fn test_getters_are_pure_reads() {
    let mut auction = AuctionContract::new();
    assert_eq!(auction.get_auction_details(), Err(AuctionError::NotFound));
    assert_eq!(auction.get_highest_bid(), (None, 0));

    let (mut auction, mut ledger) = setup(10, 3600);
    let d = auction.get_auction_details().unwrap();
    assert_eq!(d.seller, SELLER);
    assert_eq!(d.asset_token, ASSET);
    assert_eq!(d.asset_amount, 1);
    assert_eq!(d.bid_token, BID);
    assert_eq!(d.reserve_price, 10);
    assert_eq!(d.end_time, 3600);

    // Reading any number of times returns the same thing and mutates
    // nothing
    assert_eq!(auction.get_auction_details().unwrap(), d);
    assert_eq!(auction.get_highest_bid(), (None, 0));
    assert_eq!(auction.get_highest_bid(), (None, 0));

    ledger.mint(Party::Account(BIDDER1), BID, 100).unwrap();
    let ts = auction.place_bid(&auth(BIDDER1), BIDDER1, 15, 1).unwrap();
    ledger.apply_all(&ts).unwrap();
    assert_eq!(auction.get_highest_bid(), (Some(BIDDER1), 15));
    assert_eq!(auction.get_highest_bid(), (Some(BIDDER1), 15));
    assert_eq!(auction.get_auction_details().unwrap(), d);
}

#[test]
fn test_create_invalid_parameters() {
    let mut auction = AuctionContract::new();
    let r = auction.create_auction(&auth(SELLER), SELLER, ASSET, 0, BID, 10, 3600, 0);
    assert_eq!(r, Err(AuctionError::InvalidParameters));
    let r = auction.create_auction(&auth(SELLER), SELLER, ASSET, 1, BID, -1, 3600, 0);
    assert_eq!(r, Err(AuctionError::InvalidParameters));
    let r = auction.create_auction(&auth(SELLER), SELLER, ASSET, 1, BID, 10, 0, 0);
    assert_eq!(r, Err(AuctionError::InvalidParameters));
    // Nothing was created
    assert_eq!(auction.get_auction_details(), Err(AuctionError::NotFound));
}

#[test]
fn test_create_time_overflow() {
    let mut auction = AuctionContract::new();
    let r = auction.create_auction(&auth(SELLER), SELLER, ASSET, 1, BID, 10, u64::MAX, 1);
    assert_eq!(r, Err(AuctionError::TimeOverflow));
    assert_eq!(auction.get_auction_details(), Err(AuctionError::NotFound));
}

#[test]
fn test_unauthorized() {
    let mut auction = AuctionContract::new();
    let r = auction.create_auction(&auth(BIDDER1), SELLER, ASSET, 1, BID, 10, 3600, 0);
    assert_eq!(r, Err(AuctionError::Unauthorized));

    let (mut auction, _ledger) = setup(10, 3600);
    let r = auction.place_bid(&auth(BIDDER2), BIDDER1, 15, 1);
    assert_eq!(r, Err(AuctionError::Unauthorized));
}

#[test]
fn test_not_found_before_creation() {
    let mut auction = AuctionContract::new();
    let r = auction.place_bid(&auth(BIDDER1), BIDDER1, 15, 1);
    assert_eq!(r, Err(AuctionError::NotFound));
    // Existence is checked before authorization: with no record, even a
    // caller not authorized for the bidder gets NotFound
    let r = auction.place_bid(&auth(BIDDER2), BIDDER1, 15, 1);
    assert_eq!(r, Err(AuctionError::NotFound));
    let r = auction.settle(3601);
    assert_eq!(r, Err(AuctionError::NotFound));
}

#[test]
fn test_withdraw_not_supported() {
    let (auction, _ledger) = setup(10, 3600);
    assert_eq!(auction.withdraw(BIDDER1), Err(AuctionError::NotSupported));
}

#[test]
fn test_transfer_fails_without_funds() {
    let (mut auction, mut ledger) = setup(10, 3600);

    // The state machine accepts the bid, but the penniless bidder's
    // deposit cannot execute, so the environment discards the whole
    // call: the ledger is untouched
    let ts = auction.place_bid(&auth(BIDDER1), BIDDER1, 15, 1).unwrap();
    let r = ledger.apply_all(&ts);
    assert_eq!(r, Err(AuctionError::TransferFailed));
    assert_eq!(ledger.balance_of(Party::Custody, BID), 0);
    assert_eq!(ledger.balance_of(Party::Account(BIDDER1), BID), 0);
}

#[test]
fn test_mint_overflow() {
    let mut ledger = Ledger::new();
    ledger.mint(Party::Account(BIDDER1), BID, i128::MAX).unwrap();
    let r = ledger.mint(Party::Account(BIDDER1), BID, 1);
    assert_eq!(r, Err(AuctionError::TransferFailed));
    assert_eq!(ledger.balance_of(Party::Account(BIDDER1), BID), i128::MAX);
}
