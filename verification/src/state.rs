//! The contract's stored state: the current round, the closed rounds, and
//! the bettors' positions and claims.

#![allow(non_snake_case)]

use vstd::prelude::*;

use crate::table::{Table, TableKey};

verus! {

/// The message that instantiates the contract: it carries nothing.
#[derive(Clone, Copy, Debug, PartialEq, Eq, Structural)]
pub struct InstantiateMsg {}

/// The current round's id and status (0: pending, 1: open).
#[derive(Clone, Copy, Debug, PartialEq, Eq, Structural)]
pub struct Info {
    pub id: u64,
    pub status: u8,
}

/// A closed round: its two pools, the prize to share among the winners,
/// and the prices at its start and end.
#[derive(Clone, Copy, Debug, PartialEq, Eq, Structural)]
pub struct BetInfo {
    pub upBet: u128,
    pub downBet: u128,
    pub totalPrize: u128,
    pub startPrice: u128,
    pub endPrice: u128,
}

/// The all-zero closed round, answered for a round that was never closed.
pub open spec fn empty_bet_info() -> BetInfo {
    BetInfo { upBet: 0, downBet: 0, totalPrize: 0, startPrice: 0, endPrice: 0 }
}

impl Default for BetInfo {
    fn default() -> (r: Self)
        ensures
            r == empty_bet_info(),
    {
        BetInfo { upBet: 0, downBet: 0, totalPrize: 0, startPrice: 0, endPrice: 0 }
    }
}

/// The current round: the two pools staked so far, its start and end times
/// in seconds, and its start price.
#[derive(Clone, Copy, Debug, PartialEq, Eq, Structural)]
pub struct CurrentBetDetail {
    pub totalUp: u128,
    pub totalDown: u128,
    pub startTime: u64,
    pub endTime: u64,
    pub startPrice: u128,
}

/// The all-zero current round, stored while no round is open.
pub open spec fn empty_bet_detail() -> CurrentBetDetail {
    CurrentBetDetail { totalUp: 0, totalDown: 0, startTime: 0, endTime: 0, startPrice: 0 }
}

impl Default for CurrentBetDetail {
    fn default() -> (r: Self)
        ensures
            r == empty_bet_detail(),
    {
        CurrentBetDetail { totalUp: 0, totalDown: 0, startTime: 0, endTime: 0, startPrice: 0 }
    }
}

/// The key of a bettor's position or claim: an address and a round id.
pub struct BetKey {
    addr: String,
    id: u64,
}

impl View for BetKey {
    type V = (Seq<char>, u64);

    closed spec fn view(&self) -> (Seq<char>, u64) {
        (self.addr@, self.id)
    }
}

impl BetKey {
    /// The key of `addr`'s position in round `id`.
    pub fn new(addr: String, id: u64) -> (k: Self)
        ensures
            k@ == (addr@, id),
    {
        BetKey { addr, id }
    }

    /// The address of the key.
    pub fn addr(&self) -> (a: &String)
        ensures
            a@ == self@.0,
    {
        &self.addr
    }

    /// The round id of the key.
    pub fn id(&self) -> (i: u64)
        ensures
            i == self@.1,
    {
        self.id
    }
}

impl TableKey for BetKey {
    fn same_key(&self, other: &Self) -> (r: bool) {
        self.id == other.id && self.addr == other.addr
    }

    fn copy_key(&self) -> (r: Self) {
        BetKey { addr: self.addr.clone(), id: self.id }
    }
}

/// The key of a position or claim as the model holds it.
pub type KeyView = (Seq<char>, u64);

/// The contract's stored state. An item that was never stored is `None`.
pub struct ContractState {
    pub owner: Option<String>,
    pub info: Option<Info>,
    pub current_bet: Option<CurrentBetDetail>,
    /// The closed rounds, by id.
    pub bet_info: Table<u64, BetInfo>,
    /// The stake of each address on the price going up, by round.
    pub up: Table<BetKey, u128>,
    /// The stake of each address on the price going down, by round.
    pub down: Table<BetKey, u128>,
    /// Whether each address has claimed its reward of a round.
    pub claimed: Table<BetKey, bool>,
}

/// The model of the contract's stored state.
pub struct ContractModel {
    pub owner: Option<Seq<char>>,
    pub info: Option<Info>,
    pub current_bet: Option<CurrentBetDetail>,
    pub bet_info: Map<u64, BetInfo>,
    pub up: Map<KeyView, u128>,
    pub down: Map<KeyView, u128>,
    pub claimed: Map<KeyView, bool>,
}

impl View for ContractState {
    type V = ContractModel;

    open spec fn view(&self) -> ContractModel {
        ContractModel {
            owner: match self.owner {
                Some(o) => Some(o@),
                None => None,
            },
            info: self.info,
            current_bet: self.current_bet,
            bet_info: self.bet_info.map(),
            up: self.up.map(),
            down: self.down.map(),
            claimed: self.claimed.map(),
        }
    }
}

/// The state of a contract whose storage holds nothing yet.
pub open spec fn empty_model() -> ContractModel {
    ContractModel {
        owner: None,
        info: None,
        current_bet: None,
        bet_info: Map::empty(),
        up: Map::empty(),
        down: Map::empty(),
        claimed: Map::empty(),
    }
}

impl ContractState {
    /// The state of a contract whose storage holds nothing yet.
    pub fn new() -> (s: Self)
        ensures
            s@ == empty_model(),
    {
        ContractState {
            owner: None,
            info: None,
            current_bet: None,
            bet_info: Table::new(),
            up: Table::new(),
            down: Table::new(),
            claimed: Table::new(),
        }
    }
}

} // verus!
