//! The errors that the contract's operations answer with.

use vstd::prelude::*;
use vstd::string::*;

verus! {

/// An item of the contract's storage that an operation reads.
#[derive(Clone, Copy, Debug, PartialEq, Eq, Structural)]
pub enum StateItem {
    /// The address of the contract's owner.
    Owner,
    /// The current round's id and status.
    Info,
    /// The current round's pools, times and start price.
    CurrentBet,
}

impl StateItem {
    /// How the storage names the item that it does not hold: the stored
    /// type and the item's storage key in hex bytes.
    pub fn object_info(&self) -> (s: String)
        ensures
            s@ == self.object_info_spec(),
    {
        match self {
            StateItem::Owner => "type: cosmwasm_std::addresses::Addr; key: [4F, 77, 6E, 65, 72]".to_owned(),
            StateItem::Info => "type: updown_bet::state::Info; key: [69, 6E, 66, 6F]".to_owned(),
            StateItem::CurrentBet => "type: updown_bet::state::CurrentBetDetail; key: [63, 75, 72, 72, 65, 6E, 74, 42, 65, 74]".to_owned(),
        }
    }

    /// The text that names the item.
    pub open spec fn object_info_spec(&self) -> Seq<char> {
        match self {
            StateItem::Owner => "type: cosmwasm_std::addresses::Addr; key: [4F, 77, 6E, 65, 72]"@,
            StateItem::Info => "type: updown_bet::state::Info; key: [69, 6E, 66, 6F]"@,
            StateItem::CurrentBet => "type: updown_bet::state::CurrentBetDetail; key: [63, 75, 72, 72, 65, 6E, 74, 42, 65, 74]"@,
        }
    }
}

/// A failure of the runtime's standard kind.
#[derive(Clone, Copy, Debug, PartialEq, Eq, Structural)]
pub enum StdError {
    /// An item that the operation reads has never been stored (the
    /// contract was not instantiated).
    NotFound { kind: StateItem },
}

/// The errors of the contract's operations.
#[derive(Clone, Copy, Debug, PartialEq, Eq, Structural)]
pub enum ContractError {
    /// A standard failure.
    Std(StdError),
    /// The sender is not the owner.
    Unauthorized {},
    /// Only a pending round can be started.
    NotPendingID {},
    /// Only an open round can be closed.
    NotOpeningID {},
    /// A bet must stake at least 0.1 INJ.
    SmallBet {},
    /// Bets are taken only while a round is open.
    CannotBet {},
    /// The round's end time has not come yet.
    BetIDNotEnd {},
    /// The round's end time has passed.
    BetIDEnd {},
    /// The reward of this round was already claimed by this address.
    Claimed {},
}

impl ContractError {
    /// The message that the error is displayed with.
    pub fn message(&self) -> (s: String)
        ensures
            s@ == self.message_spec(),
    {
        match self {
            ContractError::Std(StdError::NotFound { kind }) => {
                let mut s = kind.object_info();
                s.append(" not found");
                s
            },
            ContractError::Unauthorized {} => "Unauthorized".to_owned(),
            ContractError::NotPendingID {} => "Only start a pending ID".to_owned(),
            ContractError::NotOpeningID {} => "Only close an opening ID".to_owned(),
            ContractError::SmallBet {} => "Only bet with more than 0.1 INJ".to_owned(),
            ContractError::CannotBet {} => "Bet ID not open yet".to_owned(),
            ContractError::BetIDNotEnd {} => "Bet ID doesn't end".to_owned(),
            ContractError::BetIDEnd {} => "Bet id ended".to_owned(),
            ContractError::Claimed {} => "Reward Claimed".to_owned(),
        }
    }

    /// The text of the error's message.
    pub open spec fn message_spec(&self) -> Seq<char> {
        match self {
            ContractError::Std(StdError::NotFound { kind }) => kind.object_info_spec()
                + " not found"@,
            ContractError::Unauthorized {} => "Unauthorized"@,
            ContractError::NotPendingID {} => "Only start a pending ID"@,
            ContractError::NotOpeningID {} => "Only close an opening ID"@,
            ContractError::SmallBet {} => "Only bet with more than 0.1 INJ"@,
            ContractError::CannotBet {} => "Bet ID not open yet"@,
            ContractError::BetIDNotEnd {} => "Bet ID doesn't end"@,
            ContractError::BetIDEnd {} => "Bet id ended"@,
            ContractError::Claimed {} => "Reward Claimed"@,
        }
    }
}

} // verus!
