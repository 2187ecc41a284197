//! The messages that the contract answers, and its answers to queries.

#![allow(non_snake_case)]

use vstd::prelude::*;

use crate::state::BetInfo;

verus! {

/// The message that instantiates the contract: it carries nothing.
#[derive(Clone, Copy, Debug, PartialEq, Eq, Structural)]
pub struct InstantiateMsg {}

/// The operations that change the contract's state.
#[derive(Clone, Copy, Debug, PartialEq, Eq, Structural)]
pub enum ExecuteMsg {
    /// The owner opens a round at `price`.
    Start { price: u128 },
    /// The owner closes the open round at `price`.
    End { price: u128 },
    /// The sender stakes the "inj" coins sent along on the price going up.
    UpBet {},
    /// The sender stakes the "inj" coins sent along on the price going down.
    DownBet {},
    /// The sender claims its reward of a closed round.
    ClaimReward { bet_id: u64 },
}

/// The questions that the contract answers.
pub enum QueryMsg {
    /// The current round, and `addr`'s stakes in it.
    CurrentInfo { addr: String },
    /// A closed round.
    BetInfo { bet_id: u64 },
    /// What `addr` would be paid by claiming round `bet_id`.
    UserReward { addr: String, bet_id: u64 },
    /// The block's time.
    TimeStampInfo {},
}

/// The current round, and one address's stakes in it.
#[derive(Clone, Copy, Debug, PartialEq, Eq, Structural)]
pub struct CurrentInfoResponse {
    pub id: u64,
    pub status: u8,
    pub totalUp: u128,
    pub totalDown: u128,
    pub startTime: u64,
    pub endTime: u64,
    pub startPrice: u128,
    pub upPosition: u128,
    pub downPosition: u128,
}

/// The answer to a query, one variant for each question.
#[derive(Clone, Copy, Debug, PartialEq, Eq, Structural)]
pub enum QueryResponse {
    CurrentInfo(CurrentInfoResponse),
    BetInfo(BetInfo),
    UserReward(u128),
    TimeStampInfo(u64),
}

} // verus!
