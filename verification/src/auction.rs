//! The auction state machine: its record, its errors, and the transfer
//! instructions it issues.

use vstd::prelude::*;

verus! {

/// Keys of the durable store under which an embedding environment persists
/// the auction record, one key per field of [`AuctionContract`].
#[derive(Clone, Copy, Debug, PartialEq, Eq, Structural)]
pub enum DataKey {
    AuctionInfo,
    HighestBidder,
    HighestBid,
    IsSettle,
}

/// Why an operation was refused. Every failure leaves the auction record
/// exactly as it was: there is no partial effect.
#[derive(Clone, Copy, Debug, PartialEq, Eq, Structural)]
pub enum AuctionError {
    /// `create_auction` was called while an auction record already exists.
    AlreadyExists,
    /// A creation parameter was out of range: the asset amount must be
    /// positive, the reserve price non-negative, the duration positive.
    InvalidParameters,
    /// `creation_time + duration` does not fit in the timestamp type.
    TimeOverflow,
    /// The authorization proof does not cover the acting principal.
    Unauthorized,
    /// No auction record exists yet.
    NotFound,
    /// The auction was settled already; settlement happens exactly once.
    AlreadySettled,
    /// The bidding window is over: `now >= end_time`.
    AuctionEnded,
    /// The bidding window is still open: `now < end_time`.
    NotEnded,
    /// The bid is below the reserve price.
    BelowReserve,
    /// The bid does not strictly exceed the current highest bid.
    BidTooLow,
    /// The operation is deliberately not offered.
    NotSupported,
    /// The asset-transfer service refused a transfer.
    TransferFailed,
}

/// A principal that can hold balances, or the contract's own custody.
#[derive(Clone, Copy, Debug, PartialEq, Eq, Structural)]
pub enum Party {
    /// Balances held by the contract instance itself, attributable to no
    /// external principal until released by a transition.
    Custody,
    /// An external principal, named by its identifier.
    Account(u64),
}

/// One instruction to the external asset-transfer service: move `amount`
/// of `token` from `from` to `to`. The state machine issues these; the
/// embedding environment executes them, and must commit them together
/// with the state change or not at all.
#[derive(Clone, Copy, Debug, PartialEq, Eq, Structural)]
pub struct Transfer {
    pub token: u64,
    pub from: Party,
    pub to: Party,
    pub amount: i128,
}

/// Proof, supplied by the embedding environment's authorization mechanism,
/// that the invoking context acts on behalf of `principal`.
#[derive(Clone, Copy, Debug, PartialEq, Eq, Structural)]
pub struct AuthorizedCaller {
    pub principal: u64,
}

/// The write-once part of the auction record.
#[derive(Clone, Copy, Debug, PartialEq, Eq, Structural)]
pub struct AuctionDetails {
    /// Owner of the escrowed asset and recipient of the final proceeds.
    pub seller: u64,
    /// The token being auctioned.
    pub asset_token: u64,
    /// How much of `asset_token` is escrowed; always positive.
    pub asset_amount: i128,
    /// The token bids are paid in.
    pub bid_token: u64,
    /// The minimum acceptable bid; never negative.
    pub reserve_price: i128,
    /// No bid is accepted at or after this timestamp.
    pub end_time: u64,
}

/// The auction state machine. `details` is written exactly once, by
/// `create_auction`; the three runtime fields mutate over the auction's
/// life. All four fields form one transactional unit per operation.
#[derive(Clone, Copy, Debug)]
pub struct AuctionContract {
    /// Absent until creation; immutable afterwards.
    pub details: Option<AuctionDetails>,
    /// The principal holding the current highest bid, if any bid was
    /// accepted yet.
    pub highest_bidder: Option<u64>,
    /// The current highest bid; `0` until the first accepted bid.
    pub highest_bid: i128,
    /// Whether settlement has executed; set exactly once, never cleared.
    pub is_settled: bool,
}

impl AuctionContract {
    /// The state invariant: the highest bid meets the reserve price
    /// whenever a highest bidder is recorded, and is zero otherwise; an
    /// auction that was never created has no runtime state.
    pub open spec fn wf(self) -> bool {
        &&& (self.details matches Some(d) ==> d.asset_amount > 0 && d.reserve_price >= 0)
        &&& (self.details is None ==> self.highest_bidder is None && !self.is_settled)
        &&& (self.highest_bidder is Some ==> self.details is Some
            && self.highest_bid >= self.details->Some_0.reserve_price
            && self.highest_bid > 0)
        &&& (self.highest_bidder is None ==> self.highest_bid == 0)
    }

    /// Whether `create_auction` succeeds, and with which error it fails
    /// otherwise, checked in the order the operation checks them.
    pub open spec fn create_check(
        self,
        auth: AuthorizedCaller,
        seller: u64,
        asset_amount: i128,
        reserve_price: i128,
        duration: u64,
        now: u64,
    ) -> Result<(), AuctionError> {
        if self.details is Some {
            Err(AuctionError::AlreadyExists)
        } else if auth.principal != seller {
            Err(AuctionError::Unauthorized)
        } else if asset_amount <= 0 || reserve_price < 0 || duration == 0 {
            Err(AuctionError::InvalidParameters)
        } else if now + duration > u64::MAX {
            Err(AuctionError::TimeOverflow)
        } else {
            Ok(())
        }
    }

    /// The record right after a successful creation.
    pub open spec fn create_post(
        seller: u64,
        asset_token: u64,
        asset_amount: i128,
        bid_token: u64,
        reserve_price: i128,
        duration: u64,
        now: u64,
    ) -> AuctionContract {
        AuctionContract {
            details: Some(
                AuctionDetails {
                    seller,
                    asset_token,
                    asset_amount,
                    bid_token,
                    reserve_price,
                    end_time: (now + duration) as u64,
                },
            ),
            highest_bidder: None,
            highest_bid: 0,
            is_settled: false,
        }
    }

    /// What a successful creation moves: the whole escrowed asset, from
    /// the seller into custody.
    pub open spec fn create_transfers(seller: u64, asset_token: u64, asset_amount: i128) -> Seq<
        Transfer,
    > {
        seq![
            Transfer {
                token: asset_token,
                from: Party::Account(seller),
                to: Party::Custody,
                amount: asset_amount,
            },
        ]
    }

    /// Whether `place_bid` accepts the bid, and with which error it
    /// refuses it otherwise, checked in the order the operation checks
    /// them.
    pub open spec fn bid_check(
        self,
        auth: AuthorizedCaller,
        bidder: u64,
        amount: i128,
        now: u64,
    ) -> Result<(), AuctionError> {
        if self.details is None {
            Err(AuctionError::NotFound)
        } else if auth.principal != bidder {
            Err(AuctionError::Unauthorized)
        } else if self.is_settled {
            Err(AuctionError::AlreadySettled)
        } else if now >= self.details->Some_0.end_time {
            Err(AuctionError::AuctionEnded)
        } else if amount < self.details->Some_0.reserve_price {
            Err(AuctionError::BelowReserve)
        } else if amount <= self.highest_bid {
            Err(AuctionError::BidTooLow)
        } else {
            Ok(())
        }
    }

    /// The record right after an accepted bid: only the highest bidder
    /// and the highest bid change.
    pub open spec fn bid_post(self, bidder: u64, amount: i128) -> AuctionContract {
        AuctionContract { highest_bidder: Some(bidder), highest_bid: amount, ..self }
    }

    /// What an accepted bid moves: the new bid from the bidder into
    /// custody and, if someone was outbid, their whole previous bid
    /// straight back to them (the push-refund).
    pub open spec fn bid_transfers(self, bidder: u64, amount: i128) -> Seq<Transfer> {
        let deposit = Transfer {
            token: self.details->Some_0.bid_token,
            from: Party::Account(bidder),
            to: Party::Custody,
            amount,
        };
        match self.highest_bidder {
            None => seq![deposit],
            Some(prev) => seq![
                deposit,
                Transfer {
                    token: self.details->Some_0.bid_token,
                    from: Party::Custody,
                    to: Party::Account(prev),
                    amount: self.highest_bid,
                },
            ],
        }
    }

    /// Whether `settle` succeeds, and with which error it fails
    /// otherwise, checked in the order the operation checks them.
    pub open spec fn settle_check(self, now: u64) -> Result<(), AuctionError> {
        if self.details is None {
            Err(AuctionError::NotFound)
        } else if self.is_settled {
            Err(AuctionError::AlreadySettled)
        } else if now < self.details->Some_0.end_time {
            Err(AuctionError::NotEnded)
        } else {
            Ok(())
        }
    }

    /// The record right after settlement: only the settled flag changes,
    /// so the winner and the winning amount stay readable.
    pub open spec fn settle_post(self) -> AuctionContract {
        AuctionContract { is_settled: true, ..self }
    }

    /// What settlement moves: with a winner, the asset from custody to
    /// the winner and the winning bid from custody to the seller; with no
    /// bid ever accepted, the asset back to the seller and nothing else.
    pub open spec fn settle_transfers(self) -> Seq<Transfer> {
        let d = self.details->Some_0;
        match self.highest_bidder {
            Some(winner) => seq![
                Transfer {
                    token: d.asset_token,
                    from: Party::Custody,
                    to: Party::Account(winner),
                    amount: d.asset_amount,
                },
                Transfer {
                    token: d.bid_token,
                    from: Party::Custody,
                    to: Party::Account(d.seller),
                    amount: self.highest_bid,
                },
            ],
            None => seq![
                Transfer {
                    token: d.asset_token,
                    from: Party::Custody,
                    to: Party::Account(d.seller),
                    amount: d.asset_amount,
                },
            ],
        }
    }

    /// A fresh, uncreated auction instance.
    pub fn new() -> (s: AuctionContract)
        ensures
            s.details is None,
            s.highest_bidder is None,
            s.highest_bid == 0,
            !s.is_settled,
            s.wf(),
    {
        AuctionContract { details: None, highest_bidder: None, highest_bid: 0, is_settled: false }
    }

    /// Create the auction: escrow the asset and write the record, exactly
    /// once per instance.
    ///
    /// On success the returned instructions move `asset_amount` of
    /// `asset_token` from `seller` into custody; the embedding
    /// environment must execute them and commit them together with the
    /// new record, or discard both. On failure nothing changes and no
    /// transfer is issued.
    pub fn create_auction(
        &mut self,
        auth: &AuthorizedCaller,
        seller: u64,
        asset_token: u64,
        asset_amount: i128,
        bid_token: u64,
        reserve_price: i128,
        duration: u64,
        now: u64,
    ) -> (r: Result<Vec<Transfer>, AuctionError>)
        requires
            old(self).wf(),
        ensures
            final(self).wf(),
            r is Ok <==> old(self).create_check(
                *auth,
                seller,
                asset_amount,
                reserve_price,
                duration,
                now,
            ) is Ok,
            r matches Err(e) ==> *final(self) == *old(self) && old(self).create_check(
                *auth,
                seller,
                asset_amount,
                reserve_price,
                duration,
                now,
            ) == Err::<(), AuctionError>(e),
            r matches Ok(ts) ==> *final(self) == AuctionContract::create_post(
                seller,
                asset_token,
                asset_amount,
                bid_token,
                reserve_price,
                duration,
                now,
            ) && ts@ == AuctionContract::create_transfers(seller, asset_token, asset_amount),
    {
        if self.details.is_some() {
            return Err(AuctionError::AlreadyExists);
        }
        if auth.principal != seller {
            return Err(AuctionError::Unauthorized);
        }
        if asset_amount <= 0 || reserve_price < 0 || duration == 0 {
            return Err(AuctionError::InvalidParameters);
        }
        if duration > u64::MAX - now {
            return Err(AuctionError::TimeOverflow);
        }
        let end_time: u64 = now + duration;
        self.details = Some(
            AuctionDetails { seller, asset_token, asset_amount, bid_token, reserve_price, end_time },
        );
        self.highest_bidder = None;
        self.highest_bid = 0;
        self.is_settled = false;
        let mut ts: Vec<Transfer> = Vec::new();
        ts.push(
            Transfer {
                token: asset_token,
                from: Party::Account(seller),
                to: Party::Custody,
                amount: asset_amount,
            },
        );
        Ok(ts)
    }

    /// Accept a qualifying bid: one at least at the reserve price and
    /// strictly above the current highest bid (ties are refused, so the
    /// first bidder at an amount keeps priority), while the window is
    /// open and the auction unsettled.
    ///
    /// On success the returned instructions first move the new bid from
    /// the bidder into custody, then — if someone was outbid — their
    /// whole previous bid straight back to them; the embedding
    /// environment must execute them and commit them together with the
    /// record, or discard both. On failure nothing changes and no
    /// transfer is issued.
    pub fn place_bid(
        &mut self,
        auth: &AuthorizedCaller,
        bidder: u64,
        amount: i128,
        now: u64,
    ) -> (r: Result<Vec<Transfer>, AuctionError>)
        requires
            old(self).wf(),
        ensures
            final(self).wf(),
            r is Ok <==> old(self).bid_check(*auth, bidder, amount, now) is Ok,
            r matches Err(e) ==> *final(self) == *old(self) && old(self).bid_check(
                *auth,
                bidder,
                amount,
                now,
            ) == Err::<(), AuctionError>(e),
            r matches Ok(ts) ==> *final(self) == old(self).bid_post(bidder, amount) && ts@ == old(
                self,
            ).bid_transfers(bidder, amount),
            r is Ok ==> old(self).highest_bid < amount && final(self).highest_bid == amount,
            final(self).details == old(self).details,
            final(self).is_settled == old(self).is_settled,
    {
        let d = match self.details {
            Some(d) => d,
            None => { return Err(AuctionError::NotFound) },
        };
        if auth.principal != bidder {
            return Err(AuctionError::Unauthorized);
        }
        if self.is_settled {
            return Err(AuctionError::AlreadySettled);
        }
        if now >= d.end_time {
            return Err(AuctionError::AuctionEnded);
        }
        if amount < d.reserve_price {
            return Err(AuctionError::BelowReserve);
        }
        if amount <= self.highest_bid {
            return Err(AuctionError::BidTooLow);
        }
        let mut ts: Vec<Transfer> = Vec::new();
        ts.push(
            Transfer {
                token: d.bid_token,
                from: Party::Account(bidder),
                to: Party::Custody,
                amount,
            },
        );
        if let Some(prev) = self.highest_bidder {
            ts.push(
                Transfer {
                    token: d.bid_token,
                    from: Party::Custody,
                    to: Party::Account(prev),
                    amount: self.highest_bid,
                },
            );
        }
        self.highest_bidder = Some(bidder);
        self.highest_bid = amount;
        Ok(ts)
    }

    /// Settle the auction, exactly once, any time from `end_time` on.
    ///
    /// On success the settled flag is set first — no later operation can
    /// run settlement again — and the returned instructions pay out
    /// custody in full: with a winner, the asset to the winner and the
    /// winning bid to the seller; with no bid ever accepted, the asset
    /// back to the seller and no bid-currency movement at all. On failure
    /// nothing changes and no transfer is issued.
    pub fn settle(&mut self, now: u64) -> (r: Result<Vec<Transfer>, AuctionError>)
        requires
            old(self).wf(),
        ensures
            final(self).wf(),
            r is Ok <==> old(self).settle_check(now) is Ok,
            r matches Err(e) ==> *final(self) == *old(self) && old(self).settle_check(now)
                == Err::<(), AuctionError>(e),
            r matches Ok(ts) ==> *final(self) == old(self).settle_post() && ts@ == old(
                self,
            ).settle_transfers(),
            r is Ok ==> !old(self).is_settled && final(self).is_settled,
            final(self).details == old(self).details,
            final(self).highest_bidder == old(self).highest_bidder,
            final(self).highest_bid == old(self).highest_bid,
            old(self).is_settled ==> r == Err::<Vec<Transfer>, AuctionError>(
                AuctionError::AlreadySettled,
            ),
    {
        let d = match self.details {
            Some(d) => d,
            None => { return Err(AuctionError::NotFound) },
        };
        if self.is_settled {
            return Err(AuctionError::AlreadySettled);
        }
        if now < d.end_time {
            return Err(AuctionError::NotEnded);
        }
        self.is_settled = true;
        let mut ts: Vec<Transfer> = Vec::new();
        match self.highest_bidder {
            Some(winner) => {
                ts.push(
                    Transfer {
                        token: d.asset_token,
                        from: Party::Custody,
                        to: Party::Account(winner),
                        amount: d.asset_amount,
                    },
                );
                ts.push(
                    Transfer {
                        token: d.bid_token,
                        from: Party::Custody,
                        to: Party::Account(d.seller),
                        amount: self.highest_bid,
                    },
                );
            },
            None => {
                ts.push(
                    Transfer {
                        token: d.asset_token,
                        from: Party::Custody,
                        to: Party::Account(d.seller),
                        amount: d.asset_amount,
                    },
                );
            },
        }
        Ok(ts)
    }

    /// Read the write-once details; fails with `NotFound` before creation.
    /// A pure read: it cannot mutate the record.
    pub fn get_auction_details(&self) -> (r: Result<AuctionDetails, AuctionError>)
        ensures
            self.details is Some ==> r == Ok::<AuctionDetails, AuctionError>(
                self.details->Some_0,
            ),
            self.details is None ==> r == Err::<AuctionDetails, AuctionError>(
                AuctionError::NotFound,
            ),
    {
        match self.details {
            Some(d) => Ok(d),
            None => Err(AuctionError::NotFound),
        }
    }

    /// Read the current highest bidder and bid; `(None, 0)` before any
    /// accepted bid. Never fails, and cannot mutate the record.
    pub fn get_highest_bid(&self) -> (r: (Option<u64>, i128))
        ensures
            r.0 == self.highest_bidder,
            r.1 == self.highest_bid,
    {
        (self.highest_bidder, self.highest_bid)
    }

    /// Manual withdrawal is deliberately not offered: superseded bidders
    /// are refunded immediately inside `place_bid`, so no balance is ever
    /// owed to anyone between operations. Always fails with
    /// `NotSupported`.
    pub fn withdraw(&self, _user: u64) -> (r: Result<(), AuctionError>)
        ensures
            r == Err::<(), AuctionError>(AuctionError::NotSupported),
    {
        Err(AuctionError::NotSupported)
    }
}

} // verus!
