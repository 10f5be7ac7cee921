//! Laws of the auction state machine, stated once for all states and
//! inputs and proved from the transition specifications.

use vstd::prelude::*;
use crate::auction::{AuctionContract, AuctionError, AuthorizedCaller, Party, Transfer};
use crate::ledger::{flow, net_flow, Ledger};

verus! {

/// What custody must hold of `token`: nothing before creation or after
/// settlement; in between, the escrowed asset and the current highest
/// bid — every superseded bid has already left.
pub open spec fn expected_custody(s: AuctionContract, token: u64) -> int {
    match s.details {
        None => 0,
        Some(d) => if s.is_settled {
            0
        } else {
            (if token == d.asset_token {
                d.asset_amount as int
            } else {
                0
            }) + (if token == d.bid_token {
                s.highest_bid as int
            } else {
                0
            })
        },
    }
}

/// Conservation: the transfer service's custody balances are exactly
/// what the auction record accounts for, in every token.
pub open spec fn conserved(s: AuctionContract, l: Ledger) -> bool {
    forall|token: u64| l.balance(Party::Custody, token) == expected_custody(s, token)
}

/// Settlement happens exactly once: after a successful settlement, a
/// later settlement attempt — at any time — fails with `AlreadySettled`,
/// a later authorized bid fails the same way, and the instance cannot be
/// created over; none of them would change the record.
pub proof fn lemma_settle_exactly_once(
    s: AuctionContract,
    now: u64,
    later: u64,
    auth: AuthorizedCaller,
    bidder: u64,
    amount: i128,
    bid_time: u64,
)
    requires
        s.wf(),
        s.settle_check(now) is Ok,
    ensures
        !s.is_settled,
        s.settle_post().is_settled,
        s.settle_post().settle_check(later) == Err::<(), AuctionError>(
            AuctionError::AlreadySettled,
        ),
        auth.principal == bidder ==> s.settle_post().bid_check(auth, bidder, amount, bid_time)
            == Err::<(), AuctionError>(AuctionError::AlreadySettled),
        forall|auth2: AuthorizedCaller, seller: u64, asset_amount: i128, reserve: i128, duration: u64, time: u64|
            s.settle_post().create_check(auth2, seller, asset_amount, reserve, duration, time)
                == Err::<(), AuctionError>(AuctionError::AlreadyExists),
{
}

/// Successive accepted bids strictly increase the highest bid: each
/// accepted bid exceeds the bid it supersedes, which in turn exceeded
/// the one before it.
pub proof fn lemma_bids_strictly_increase(
    s: AuctionContract,
    auth1: AuthorizedCaller,
    bidder1: u64,
    amount1: i128,
    time1: u64,
    auth2: AuthorizedCaller,
    bidder2: u64,
    amount2: i128,
    time2: u64,
)
    requires
        s.wf(),
        s.bid_check(auth1, bidder1, amount1, time1) is Ok,
        s.bid_post(bidder1, amount1).bid_check(auth2, bidder2, amount2, time2) is Ok,
    ensures
        s.highest_bid < amount1,
        amount1 < amount2,
{
}

/// A bid at or below the current highest bid is never accepted, whoever
/// places it and whenever: ties are refused, so the first bidder at an
/// amount keeps priority. When every other guard holds — the auction
/// exists, the caller is authorized for the bidder, nothing is settled,
/// the window is open and the reserve is met — the refusal is exactly
/// `BidTooLow`.
pub proof fn lemma_no_equal_or_lower_bid_accepted(
    s: AuctionContract,
    auth: AuthorizedCaller,
    bidder: u64,
    amount: i128,
    now: u64,
)
    requires
        amount <= s.highest_bid,
    ensures
        s.bid_check(auth, bidder, amount, now) is Err,
        (s.details is Some && auth.principal == bidder && !s.is_settled
            && now < s.details->Some_0.end_time && amount >= s.details->Some_0.reserve_price)
            ==> s.bid_check(auth, bidder, amount, now) == Err::<(), AuctionError>(
            AuctionError::BidTooLow,
        ),
{
}

/// Conservation across creation: starting from custody that holds
/// nothing for this auction, executing the issued escrow transfer
/// leaves custody holding exactly the escrowed asset — and the new
/// record accounts for exactly that.
pub proof fn lemma_create_conserves(
    pre: AuctionContract,
    lpre: Ledger,
    lpost: Ledger,
    auth: AuthorizedCaller,
    seller: u64,
    asset_token: u64,
    asset_amount: i128,
    bid_token: u64,
    reserve_price: i128,
    duration: u64,
    now: u64,
)
    requires
        pre.wf(),
        pre.create_check(auth, seller, asset_amount, reserve_price, duration, now) is Ok,
        conserved(pre, lpre),
        forall|o: Party, tok: u64|
            lpost.balance(o, tok) == lpre.balance(o, tok) + net_flow(
                AuctionContract::create_transfers(seller, asset_token, asset_amount),
                o,
                tok,
            ),
    ensures
        conserved(
            AuctionContract::create_post(
                seller,
                asset_token,
                asset_amount,
                bid_token,
                reserve_price,
                duration,
                now,
            ),
            lpost,
        ),
{
    let ts = AuctionContract::create_transfers(seller, asset_token, asset_amount);
    let post = AuctionContract::create_post(
        seller,
        asset_token,
        asset_amount,
        bid_token,
        reserve_price,
        duration,
        now,
    );
    assert(ts.drop_last() =~= Seq::<Transfer>::empty());
    assert forall|token: u64|
        lpost.balance(Party::Custody, token) == expected_custody(post, token) by {
        assert(net_flow(Seq::<Transfer>::empty(), Party::Custody, token) == 0);
        assert(net_flow(ts, Party::Custody, token) == flow(ts.last(), Party::Custody, token));
        assert(lpre.balance(Party::Custody, token) == expected_custody(pre, token));
        assert(lpre.balance(Party::Custody, token) == 0);
    }
}

/// Conservation across a bid: executing the issued deposit — and, where
/// someone was outbid, the push-refund — moves custody of the bid token
/// from the superseded bid to the new one, whole; custody of every
/// other token stands.
pub proof fn lemma_bid_conserves(
    pre: AuctionContract,
    lpre: Ledger,
    lpost: Ledger,
    auth: AuthorizedCaller,
    bidder: u64,
    amount: i128,
    now: u64,
)
    requires
        pre.wf(),
        pre.bid_check(auth, bidder, amount, now) is Ok,
        conserved(pre, lpre),
        forall|o: Party, tok: u64|
            lpost.balance(o, tok) == lpre.balance(o, tok) + net_flow(
                pre.bid_transfers(bidder, amount),
                o,
                tok,
            ),
    ensures
        conserved(pre.bid_post(bidder, amount), lpost),
{
    let ts = pre.bid_transfers(bidder, amount);
    let post = pre.bid_post(bidder, amount);
    match pre.highest_bidder {
        None => {
            assert(ts.drop_last() =~= Seq::<Transfer>::empty());
            assert forall|token: u64|
                lpost.balance(Party::Custody, token) == expected_custody(post, token) by {
                assert(lpre.balance(Party::Custody, token) == expected_custody(pre, token));
                assert(net_flow(Seq::<Transfer>::empty(), Party::Custody, token) == 0);
                assert(net_flow(ts, Party::Custody, token) == flow(
                    ts.last(),
                    Party::Custody,
                    token,
                ));
            }
        },
        Some(_) => {
            let dl = ts.drop_last();
            assert(dl.len() == 1);
            assert(dl.last() == ts[0]);
            assert(dl.drop_last() =~= Seq::<Transfer>::empty());
            assert forall|token: u64|
                lpost.balance(Party::Custody, token) == expected_custody(post, token) by {
                assert(lpre.balance(Party::Custody, token) == expected_custody(pre, token));
                assert(net_flow(Seq::<Transfer>::empty(), Party::Custody, token) == 0);
                assert(net_flow(dl, Party::Custody, token) == flow(ts[0], Party::Custody, token));
                assert(net_flow(ts, Party::Custody, token) == net_flow(dl, Party::Custody, token)
                    + flow(ts[1], Party::Custody, token));
            }
        },
    }
}

/// Conservation across settlement: executing the issued payouts empties
/// custody — the asset to the winner and the winning bid to the seller,
/// or the asset back to the seller when no bid was ever accepted — and
/// the settled record accounts for exactly that.
pub proof fn lemma_settle_conserves(
    pre: AuctionContract,
    lpre: Ledger,
    lpost: Ledger,
    now: u64,
)
    requires
        pre.wf(),
        pre.settle_check(now) is Ok,
        conserved(pre, lpre),
        forall|o: Party, tok: u64|
            lpost.balance(o, tok) == lpre.balance(o, tok) + net_flow(
                pre.settle_transfers(),
                o,
                tok,
            ),
    ensures
        conserved(pre.settle_post(), lpost),
{
    let ts = pre.settle_transfers();
    let post = pre.settle_post();
    match pre.highest_bidder {
        None => {
            assert(ts.drop_last() =~= Seq::<Transfer>::empty());
            assert forall|token: u64|
                lpost.balance(Party::Custody, token) == expected_custody(post, token) by {
                assert(lpre.balance(Party::Custody, token) == expected_custody(pre, token));
                assert(net_flow(Seq::<Transfer>::empty(), Party::Custody, token) == 0);
                assert(net_flow(ts, Party::Custody, token) == flow(
                    ts.last(),
                    Party::Custody,
                    token,
                ));
            }
        },
        Some(_) => {
            let dl = ts.drop_last();
            assert(dl.len() == 1);
            assert(dl.last() == ts[0]);
            assert(dl.drop_last() =~= Seq::<Transfer>::empty());
            assert forall|token: u64|
                lpost.balance(Party::Custody, token) == expected_custody(post, token) by {
                assert(lpre.balance(Party::Custody, token) == expected_custody(pre, token));
                assert(net_flow(Seq::<Transfer>::empty(), Party::Custody, token) == 0);
                assert(net_flow(dl, Party::Custody, token) == flow(ts[0], Party::Custody, token));
                assert(net_flow(ts, Party::Custody, token) == net_flow(dl, Party::Custody, token)
                    + flow(ts[1], Party::Custody, token));
            }
        },
    }
}

} // verus!
