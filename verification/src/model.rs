//! What each operation of the contract does, stated over the model of its
//! state. An operation that fails changes nothing: the runtime drops the
//! writes of a call that answers with an error.

use vstd::prelude::*;

use crate::chain::{BankMsgView, Coin, MessageInfo, ResponseView};
use crate::decimal::decimal;
use crate::error::{ContractError, StateItem, StdError};
use crate::msg::{CurrentInfoResponse, ExecuteMsg, QueryMsg, QueryResponse};
use crate::state::{
    empty_bet_detail, empty_bet_info, BetInfo, ContractModel, CurrentBetDetail, Info, KeyView,
};

verus! {

/// The least stake of a bet: 0.1 INJ, in units of 10^-18 INJ.
pub const MIN_BET: u128 = 100000000000000000;

/// How long a round stays open for bets, in seconds.
pub const ROUND_SECONDS: u64 = 300;

/// The fixed-point scale of a winner's share of the prize.
pub const REWARD_SCALE: u128 = 1000000;

/// What an operation does when it does not fail: the new state and the
/// answer; or the error it fails with.
pub type Outcome = Result<(ContractModel, ResponseView), ContractError>;

/// The error of reading an item that was never stored.
pub open spec fn not_found(kind: StateItem) -> ContractError {
    ContractError::Std(StdError::NotFound { kind })
}

/// A transfer of `amount` INJ to `to`.
pub open spec fn send_inj(to: Seq<char>, amount: u128) -> BankMsgView {
    BankMsgView::Send { to_address: to, amount: seq![("inj"@, amount)] }
}

/// The decimal text of an amount.
pub open spec fn text(n: u128) -> Seq<char> {
    decimal(n as nat)
}

/// The state and answer of instantiating the contract from `sender`:
/// `sender` becomes the owner, round 0 is pending, and the current round is
/// all zero.
pub open spec fn instantiate_model(m: ContractModel, sender: Seq<char>) -> (
    ContractModel,
    ResponseView,
) {
    (
        ContractModel {
            owner: Some(sender),
            info: Some(Info { id: 0, status: 0 }),
            current_bet: Some(empty_bet_detail()),
            ..m
        },
        ResponseView {
            messages: seq![],
            attributes: seq![("method"@, "instantiate"@), ("owner"@, sender)],
        },
    )
}

/// Starting a round: the owner opens the pending round at `price`, for
/// `ROUND_SECONDS` from `now`, with empty pools.
pub open spec fn start_bet_model(m: ContractModel, sender: Seq<char>, now: u64, price: u128) -> Outcome {
    if m.owner is None {
        Err(not_found(StateItem::Owner))
    } else if m.info is None {
        Err(not_found(StateItem::Info))
    } else if m.owner->0 != sender {
        Err(ContractError::Unauthorized {  })
    } else if m.info->0.status != 0 {
        Err(ContractError::NotPendingID {  })
    } else {
        Ok(
            (
                ContractModel {
                    info: Some(Info { id: m.info->0.id, status: 1 }),
                    current_bet: Some(
                        CurrentBetDetail {
                            totalUp: 0,
                            totalDown: 0,
                            startTime: now,
                            endTime: (now + ROUND_SECONDS) as u64,
                            startPrice: price,
                        },
                    ),
                    ..m
                },
                ResponseView {
                    messages: seq![],
                    attributes: seq![
                        ("action"@, "execute_start_bet"@),
                        ("start_price"@, text(price)),
                    ],
                },
            ),
        )
    }
}

/// Starting a round at `now` would overflow the round's end time.
pub open spec fn start_bet_panics(m: ContractModel, sender: Seq<char>, now: u64) -> bool {
    &&& m.owner is Some
    &&& m.info is Some
    &&& m.owner->0 == sender
    &&& m.info->0.status == 0
    &&& now + ROUND_SECONDS > u64::MAX
}

/// The prize of a round whose pools hold `total`: 99 percent of it, rounded
/// down.
pub open spec fn prize_of(total: int) -> int {
    total * 99 / 100
}

/// Ending a round: the owner closes the open round, once its end time has
/// come, at `price`. The round is recorded under its id with its pools and
/// its prize, the next round becomes pending, the current round is cleared,
/// and the fee (the pools less the prize) goes to the owner.
pub open spec fn end_bet_model(m: ContractModel, sender: Seq<char>, now: u64, price: u128) -> Outcome {
    if m.owner is None {
        Err(not_found(StateItem::Owner))
    } else if m.info is None {
        Err(not_found(StateItem::Info))
    } else if m.current_bet is None {
        Err(not_found(StateItem::CurrentBet))
    } else if m.owner->0 != sender {
        Err(ContractError::Unauthorized {  })
    } else if m.info->0.status != 1 {
        Err(ContractError::NotOpeningID {  })
    } else if now < m.current_bet->0.endTime {
        Err(ContractError::BetIDNotEnd {  })
    } else {
        let info = m.info->0;
        let bet = m.current_bet->0;
        let total = bet.totalUp + bet.totalDown;
        let prize = prize_of(total);
        let fee = (total - prize) as u128;
        Ok(
            (
                ContractModel {
                    bet_info: m.bet_info.insert(
                        info.id,
                        BetInfo {
                            upBet: bet.totalUp,
                            downBet: bet.totalDown,
                            totalPrize: prize as u128,
                            startPrice: bet.startPrice,
                            endPrice: price,
                        },
                    ),
                    info: Some(Info { id: (info.id + 1) as u64, status: 0 }),
                    current_bet: Some(empty_bet_detail()),
                    ..m
                },
                ResponseView {
                    messages: seq![send_inj(m.owner->0, fee)],
                    attributes: seq![
                        ("action"@, "execute_end_bet"@),
                        ("end_price"@, text(price)),
                        ("fee"@, text(fee)),
                    ],
                },
            ),
        )
    }
}

/// Ending the round would overflow its pools' sum, that sum times 99, or the
/// round id.
pub open spec fn end_bet_panics(m: ContractModel, sender: Seq<char>, now: u64) -> bool {
    &&& m.owner is Some
    &&& m.info is Some
    &&& m.current_bet is Some
    &&& m.owner->0 == sender
    &&& m.info->0.status == 1
    &&& now >= m.current_bet->0.endTime
    &&& {
        let bet = m.current_bet->0;
        ||| bet.totalUp + bet.totalDown > u128::MAX
        ||| (bet.totalUp + bet.totalDown) * 99 > u128::MAX
        ||| m.info->0.id == u64::MAX
    }
}

/// The amount of the first "inj" coin among `funds`, if there is one.
pub open spec fn first_inj(funds: Seq<Coin>) -> Option<u128>
    decreases funds.len(),
{
    if funds.len() == 0 {
        None
    } else if funds[0].denom@ == "inj"@ {
        Some(funds[0].amount)
    } else {
        first_inj(funds.drop_first())
    }
}

/// The pool of the side of a bet.
pub open spec fn side_pool(bet: CurrentBetDetail, up: bool) -> u128 {
    if up {
        bet.totalUp
    } else {
        bet.totalDown
    }
}

/// The stakes of the side of a bet.
pub open spec fn side_book(m: ContractModel, up: bool) -> Map<KeyView, u128> {
    if up {
        m.up
    } else {
        m.down
    }
}

/// The stake of `k` in `book`, zero where it has none.
pub open spec fn stake_in(book: Map<KeyView, u128>, k: KeyView) -> u128 {
    if book.contains_key(k) {
        book[k]
    } else {
        0
    }
}

/// Betting: while the current round is open and its end time has not
/// passed, the first "inj" coin sent along, if it is at least `MIN_BET`, is
/// added to the pool of the side (`up`, or else down) and to the sender's
/// stake on that side in the round.
pub open spec fn bet_model(
    m: ContractModel,
    sender: Seq<char>,
    now: u64,
    funds: Seq<Coin>,
    up: bool,
) -> Outcome {
    if m.info is None {
        Err(not_found(StateItem::Info))
    } else if m.current_bet is None {
        Err(not_found(StateItem::CurrentBet))
    } else if m.info->0.status != 1 {
        Err(ContractError::CannotBet {  })
    } else if now > m.current_bet->0.endTime {
        Err(ContractError::BetIDEnd {  })
    } else if first_inj(funds)->0 < MIN_BET {
        Err(ContractError::SmallBet {  })
    } else {
        let amount = first_inj(funds)->0;
        let bet = m.current_bet->0;
        let k = (sender, m.info->0.id);
        let stake = (stake_in(side_book(m, up), k) + amount) as u128;
        let new_bet = if up {
            CurrentBetDetail { totalUp: (bet.totalUp + amount) as u128, ..bet }
        } else {
            CurrentBetDetail { totalDown: (bet.totalDown + amount) as u128, ..bet }
        };
        Ok(
            (
                if up {
                    ContractModel { current_bet: Some(new_bet), up: m.up.insert(k, stake), ..m }
                } else {
                    ContractModel { current_bet: Some(new_bet), down: m.down.insert(k, stake), ..m }
                },
                ResponseView {
                    messages: seq![],
                    attributes: seq![
                        ("action"@, if up {
                            "up_bet"@
                        } else {
                            "down_bet"@
                        }),
                        ("value"@, text(amount)),
                    ],
                },
            ),
        )
    }
}

/// Betting would find no "inj" coin among `funds`, or overflow the pool or
/// the sender's stake.
pub open spec fn bet_panics(
    m: ContractModel,
    sender: Seq<char>,
    now: u64,
    funds: Seq<Coin>,
    up: bool,
) -> bool {
    &&& m.info is Some
    &&& m.current_bet is Some
    &&& m.info->0.status == 1
    &&& now <= m.current_bet->0.endTime
    &&& {
        ||| first_inj(funds) is None
        ||| side_pool(m.current_bet->0, up) + first_inj(funds)->0 > u128::MAX
        ||| first_inj(funds)->0 >= MIN_BET && stake_in(side_book(m, up), (sender, m.info->0.id))
            + first_inj(funds)->0 > u128::MAX
    }
}

/// A winner's payout: its share of `prize` in the proportion of `stake` to
/// the winning side's `pool`, computed at the scale `REWARD_SCALE` and
/// rounded down at each step.
pub open spec fn payout(prize: u128, pool: u128, stake: u128) -> int {
    (prize * REWARD_SCALE) / (pool as int) * stake / (REWARD_SCALE as int)
}

/// The payout can be computed: the pool is not empty and no step overflows.
pub open spec fn payout_defined(prize: u128, pool: u128, stake: u128) -> bool {
    &&& pool > 0
    &&& prize * REWARD_SCALE <= u128::MAX
    &&& (prize * REWARD_SCALE) / (pool as int) * stake <= u128::MAX
}

/// The winning side of closed round `b` (up where the price did not fall)
/// and `k`'s stake on it, as (pool, stake), if `k` has staked on it.
pub open spec fn winning_stake(m: ContractModel, k: KeyView, b: BetInfo) -> Option<(u128, u128)> {
    if b.startPrice <= b.endPrice {
        if m.up.contains_key(k) {
            Some((b.upBet, m.up[k]))
        } else {
            None
        }
    } else {
        if m.down.contains_key(k) {
            Some((b.downBet, m.down[k]))
        } else {
            None
        }
    }
}

/// `k` has claimed its reward.
pub open spec fn is_claimed(m: ContractModel, k: KeyView) -> bool {
    m.claimed.contains_key(k) && m.claimed[k]
}

/// What address `k.0` is owed for round `k.1`: nothing once it has claimed,
/// nothing for a round that is not closed, nothing without a stake on the
/// winning side, and its payout otherwise.
pub open spec fn user_reward(m: ContractModel, k: KeyView) -> int {
    if is_claimed(m, k) || !m.bet_info.contains_key(k.1) {
        0
    } else {
        let b = m.bet_info[k.1];
        match winning_stake(m, k, b) {
            Some((pool, stake)) => payout(b.totalPrize, pool, stake),
            None => 0,
        }
    }
}

/// Working out `k`'s reward would divide by zero or overflow.
pub open spec fn reward_panics(m: ContractModel, k: KeyView) -> bool {
    &&& !is_claimed(m, k)
    &&& m.bet_info.contains_key(k.1)
    &&& match winning_stake(m, k, m.bet_info[k.1]) {
        Some((pool, stake)) => !payout_defined(m.bet_info[k.1].totalPrize, pool, stake),
        None => false,
    }
}

/// The answer to a claim of `reward` for round `bet_id` by `sender`.
pub open spec fn claim_response(sender: Seq<char>, reward: u128, bet_id: u64) -> ResponseView {
    ResponseView {
        messages: seq![send_inj(sender, reward)],
        attributes: seq![
            ("action"@, "claim"@),
            ("value"@, text(reward)),
            ("addr"@, sender),
            ("bet_id"@, text(bet_id as u128)),
        ],
    }
}

/// Claiming: an address that has claimed round `bet_id` is refused;
/// otherwise it is sent what it is owed (possibly nothing), and, where the
/// round is closed, it is marked as having claimed.
pub open spec fn claim_model(m: ContractModel, sender: Seq<char>, bet_id: u64) -> Outcome {
    let k = (sender, bet_id);
    if is_claimed(m, k) {
        Err(ContractError::Claimed {  })
    } else {
        Ok(
            (
                if m.bet_info.contains_key(bet_id) {
                    ContractModel { claimed: m.claimed.insert(k, true), ..m }
                } else {
                    m
                },
                claim_response(sender, user_reward(m, k) as u128, bet_id),
            ),
        )
    }
}

/// The current round and `addr`'s stakes in it.
pub open spec fn current_info_model(m: ContractModel, addr: Seq<char>) -> Result<
    CurrentInfoResponse,
    StdError,
> {
    if m.info is None {
        Err(StdError::NotFound { kind: StateItem::Info })
    } else if m.current_bet is None {
        Err(StdError::NotFound { kind: StateItem::CurrentBet })
    } else {
        let info = m.info->0;
        let bet = m.current_bet->0;
        let k = (addr, info.id);
        Ok(
            CurrentInfoResponse {
                id: info.id,
                status: info.status,
                totalUp: bet.totalUp,
                totalDown: bet.totalDown,
                startTime: bet.startTime,
                endTime: bet.endTime,
                startPrice: bet.startPrice,
                upPosition: stake_in(m.up, k),
                downPosition: stake_in(m.down, k),
            },
        )
    }
}

/// Closed round `bet_id`, or the all-zero round where it is not closed.
pub open spec fn bet_info_model(m: ContractModel, bet_id: u64) -> BetInfo {
    if m.bet_info.contains_key(bet_id) {
        m.bet_info[bet_id]
    } else {
        empty_bet_info()
    }
}

/// What `execute` does with `msg`.
pub open spec fn execute_model(m: ContractModel, now: u64, info: MessageInfo, msg: ExecuteMsg) -> Outcome {
    match msg {
        ExecuteMsg::Start { price } => start_bet_model(m, info.sender@, now, price),
        ExecuteMsg::End { price } => end_bet_model(m, info.sender@, now, price),
        ExecuteMsg::UpBet {  } => bet_model(m, info.sender@, now, info.funds@, true),
        ExecuteMsg::DownBet {  } => bet_model(m, info.sender@, now, info.funds@, false),
        ExecuteMsg::ClaimReward { bet_id } => claim_model(m, info.sender@, bet_id),
    }
}

/// `execute` with `msg` would overflow, divide by zero or find no "inj" coin.
pub open spec fn execute_panics(m: ContractModel, now: u64, info: MessageInfo, msg: ExecuteMsg) -> bool {
    match msg {
        ExecuteMsg::Start { .. } => start_bet_panics(m, info.sender@, now),
        ExecuteMsg::End { .. } => end_bet_panics(m, info.sender@, now),
        ExecuteMsg::UpBet {  } => bet_panics(m, info.sender@, now, info.funds@, true),
        ExecuteMsg::DownBet {  } => bet_panics(m, info.sender@, now, info.funds@, false),
        ExecuteMsg::ClaimReward { bet_id } => reward_panics(m, (info.sender@, bet_id)),
    }
}

/// The answer to query `msg` at time `now`.
pub open spec fn query_model(m: ContractModel, now: u64, msg: QueryMsg) -> Result<
    QueryResponse,
    StdError,
> {
    match msg {
        QueryMsg::CurrentInfo { addr } => match current_info_model(m, addr@) {
            Ok(r) => Ok(QueryResponse::CurrentInfo(r)),
            Err(e) => Err(e),
        },
        QueryMsg::BetInfo { bet_id } => Ok(QueryResponse::BetInfo(bet_info_model(m, bet_id))),
        QueryMsg::UserReward { addr, bet_id } => Ok(
            QueryResponse::UserReward(user_reward(m, (addr@, bet_id)) as u128),
        ),
        QueryMsg::TimeStampInfo {  } => Ok(QueryResponse::TimeStampInfo(now)),
    }
}

/// Answering `msg` would divide by zero or overflow.
pub open spec fn query_panics(m: ContractModel, msg: QueryMsg) -> bool {
    match msg {
        QueryMsg::UserReward { addr, bet_id } => reward_panics(m, (addr@, bet_id)),
        _ => false,
    }
}

} // verus!
