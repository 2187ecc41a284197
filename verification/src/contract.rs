//! The contract's operations over its state: instantiation, the five
//! operations that change the state, and the queries.

use vstd::prelude::*;

use crate::chain::{coins, BankMsg, Coin, Env, MessageInfo, Response};
use crate::decimal::to_decimal;
use crate::error::{ContractError, StateItem, StdError};
use crate::model::{
    bet_info_model, bet_model, bet_panics, claim_model, current_info_model, end_bet_model,
    end_bet_panics, execute_model, execute_panics, first_inj, instantiate_model, is_claimed,
    payout, payout_defined, query_model, query_panics, reward_panics, start_bet_model,
    start_bet_panics, user_reward, Outcome, MIN_BET, REWARD_SCALE, ROUND_SECONDS,
};
use crate::msg::{CurrentInfoResponse, ExecuteMsg, InstantiateMsg, QueryMsg, QueryResponse};
use crate::state::{BetInfo, BetKey, ContractModel, ContractState, CurrentBetDetail, Info};

verus! {

/// The result `r` of an operation, the state `after` it left from the state
/// `before` it found, agree with `expected`: on success the new state and
/// the answer; on failure the error, and the state unchanged.
pub open spec fn outcome_holds(
    r: Result<Response, ContractError>,
    before: ContractModel,
    after: ContractModel,
    expected: Outcome,
) -> bool {
    match expected {
        Ok((m, resp)) => r is Ok && after == m && r->Ok_0@ == resp,
        Err(e) => r is Err && r->Err_0 == e && after == before,
    }
}

fn not_found(kind: StateItem) -> (e: ContractError)
    ensures
        e == crate::model::not_found(kind),
{
    ContractError::Std(StdError::NotFound { kind })
}

/// Instantiates the contract: the sender becomes the owner, round 0 is
/// pending, and the current round is all zero.
pub fn instantiate(
    state: &mut ContractState,
    _env: &Env,
    info: &MessageInfo,
    _msg: InstantiateMsg,
) -> (r: Response)
    ensures
        final(state)@ == instantiate_model(old(state)@, info.sender@).0,
        r@ == instantiate_model(old(state)@, info.sender@).1,
{
    let owner = info.sender.clone();
    state.owner = Some(owner.clone());
    state.info = Some(Info { id: 0, status: 0 });
    state.current_bet = Some(CurrentBetDetail::default());
    let r = Response::new().add_attribute("method", "instantiate".to_owned()).add_attribute(
        "owner",
        owner,
    );
    assert(r@.attributes =~= instantiate_model(old(state)@, info.sender@).1.attributes);
    assert(r@.messages =~= instantiate_model(old(state)@, info.sender@).1.messages);
    r
}

/// Starts a round: the owner opens the pending round at `price`, for
/// `ROUND_SECONDS` from the block's time.
pub fn execute_start_bet(
    state: &mut ContractState,
    env: &Env,
    info: &MessageInfo,
    price: u128,
) -> (r: Result<Response, ContractError>)
    requires
        !start_bet_panics(old(state)@, info.sender@, env.block_time),
    ensures
        outcome_holds(
            r,
            old(state)@,
            final(state)@,
            start_bet_model(old(state)@, info.sender@, env.block_time, price),
        ),
{
    let is_owner = match &state.owner {
        Some(owner) => owner.eq(&info.sender),
        None => { return Err(not_found(StateItem::Owner)); },
    };
    let round = match state.info {
        Some(i) => i,
        None => { return Err(not_found(StateItem::Info)); },
    };
    if !is_owner {
        return Err(ContractError::Unauthorized {  });
    }
    if round.status != 0 {
        return Err(ContractError::NotPendingID {  });
    }
    state.info = Some(Info { id: round.id, status: 1 });
    state.current_bet = Some(
        CurrentBetDetail {
            totalUp: 0,
            totalDown: 0,
            startTime: env.block_time,
            endTime: env.block_time + ROUND_SECONDS,
            startPrice: price,
        },
    );
    let r = Response::new().add_attribute("action", "execute_start_bet".to_owned()).add_attribute(
        "start_price",
        to_decimal(price),
    );
    proof {
        let expected = start_bet_model(old(state)@, info.sender@, env.block_time, price)->Ok_0.1;
        assert(r@.attributes =~= expected.attributes);
        assert(r@.messages =~= expected.messages);
    }
    Ok(r)
}

/// Ends a round: the owner closes the open round, once its end time has
/// come, at `price`; the round is recorded with its prize (99 percent of its
/// pools), the next round becomes pending, and the fee goes to the owner.
pub fn execute_end_bet(
    state: &mut ContractState,
    env: &Env,
    info: &MessageInfo,
    price: u128,
) -> (r: Result<Response, ContractError>)
    requires
        !end_bet_panics(old(state)@, info.sender@, env.block_time),
    ensures
        outcome_holds(
            r,
            old(state)@,
            final(state)@,
            end_bet_model(old(state)@, info.sender@, env.block_time, price),
        ),
{
    let owner = match &state.owner {
        Some(owner) => owner.clone(),
        None => { return Err(not_found(StateItem::Owner)); },
    };
    let round = match state.info {
        Some(i) => i,
        None => { return Err(not_found(StateItem::Info)); },
    };
    let bet = match state.current_bet {
        Some(b) => b,
        None => { return Err(not_found(StateItem::CurrentBet)); },
    };
    if !owner.eq(&info.sender) {
        return Err(ContractError::Unauthorized {  });
    }
    if round.status != 1 {
        return Err(ContractError::NotOpeningID {  });
    }
    if env.block_time < bet.endTime {
        return Err(ContractError::BetIDNotEnd {  });
    }
    let total = bet.totalUp + bet.totalDown;
    let prize = total * 99 / 100;
    let fee = total - prize;
    state.bet_info.insert(
        round.id,
        BetInfo {
            upBet: bet.totalUp,
            downBet: bet.totalDown,
            totalPrize: prize,
            startPrice: bet.startPrice,
            endPrice: price,
        },
    );
    state.info = Some(Info { id: round.id + 1, status: 0 });
    state.current_bet = Some(CurrentBetDetail::default());
    let fee_message = BankMsg::Send { to_address: owner, amount: coins(fee, "inj") };
    let r = Response::new().add_message(fee_message).add_attribute(
        "action",
        "execute_end_bet".to_owned(),
    ).add_attribute("end_price", to_decimal(price)).add_attribute("fee", to_decimal(fee));
    proof {
        let expected = end_bet_model(old(state)@, info.sender@, env.block_time, price)->Ok_0;
        assert(r@.attributes =~= expected.1.attributes);
        assert(r@.messages =~= expected.1.messages);
        assert(state@ =~= expected.0);
    }
    Ok(r)
}

/// The amount of the first "inj" coin among `funds`, if there is one.
fn first_inj_amount(funds: &Vec<Coin>) -> (r: Option<u128>)
    ensures
        r == first_inj(funds@),
{
    let denom = "inj".to_owned();
    let mut i: usize = 0;
    assert(funds@.skip(0) =~= funds@);
    while i < funds.len()
        invariant
            i <= funds@.len(),
            denom@ == "inj"@,
            first_inj(funds@) == first_inj(funds@.skip(i as int)),
        decreases funds@.len() - i,
    {
        assert(funds@.skip(i as int)[0] == funds@[i as int]);
        if funds[i].denom.eq(&denom) {
            return Some(funds[i].amount);
        }
        assert(funds@.skip(i as int).drop_first() =~= funds@.skip(i + 1));
        i = i + 1;
    }
    assert(funds@.skip(i as int).len() == 0);
    None
}

/// Places a bet of the sender on the price going `up` (or else down).
fn place_bet(state: &mut ContractState, env: &Env, info: &MessageInfo, up: bool) -> (r: Result<
    Response,
    ContractError,
>)
    requires
        !bet_panics(old(state)@, info.sender@, env.block_time, info.funds@, up),
    ensures
        outcome_holds(
            r,
            old(state)@,
            final(state)@,
            bet_model(old(state)@, info.sender@, env.block_time, info.funds@, up),
        ),
{
    let round = match state.info {
        Some(i) => i,
        None => { return Err(not_found(StateItem::Info)); },
    };
    let mut bet = match state.current_bet {
        Some(b) => b,
        None => { return Err(not_found(StateItem::CurrentBet)); },
    };
    if round.status != 1 {
        return Err(ContractError::CannotBet {  });
    }
    if env.block_time > bet.endTime {
        return Err(ContractError::BetIDEnd {  });
    }
    let amount = first_inj_amount(&info.funds).unwrap();
    if up {
        bet.totalUp = bet.totalUp + amount;
    } else {
        bet.totalDown = bet.totalDown + amount;
    }
    if amount < MIN_BET {
        return Err(ContractError::SmallBet {  });
    }
    state.current_bet = Some(bet);
    let key = BetKey::new(info.sender.clone(), round.id);
    if up {
        let stake = match state.up.get(&key) {
            Some(s) => s + amount,
            None => amount,
        };
        state.up.insert(key, stake);
    } else {
        let stake = match state.down.get(&key) {
            Some(s) => s + amount,
            None => amount,
        };
        state.down.insert(key, stake);
    }
    let action = if up {
        "up_bet".to_owned()
    } else {
        "down_bet".to_owned()
    };
    let r = Response::new().add_attribute("action", action).add_attribute(
        "value",
        to_decimal(amount),
    );
    proof {
        let expected = bet_model(old(state)@, info.sender@, env.block_time, info.funds@, up)->Ok_0;
        assert(r@.attributes =~= expected.1.attributes);
        assert(r@.messages =~= expected.1.messages);
        assert(state@ =~= expected.0);
    }
    Ok(r)
}

/// Bets the first "inj" coin sent along on the price going up.
pub fn execute_up_bet(state: &mut ContractState, env: &Env, info: &MessageInfo) -> (r: Result<
    Response,
    ContractError,
>)
    requires
        !bet_panics(old(state)@, info.sender@, env.block_time, info.funds@, true),
    ensures
        outcome_holds(
            r,
            old(state)@,
            final(state)@,
            bet_model(old(state)@, info.sender@, env.block_time, info.funds@, true),
        ),
{
    place_bet(state, env, info, true)
}

/// Bets the first "inj" coin sent along on the price going down.
pub fn execute_down_bet(state: &mut ContractState, env: &Env, info: &MessageInfo) -> (r: Result<
    Response,
    ContractError,
>)
    requires
        !bet_panics(old(state)@, info.sender@, env.block_time, info.funds@, false),
    ensures
        outcome_holds(
            r,
            old(state)@,
            final(state)@,
            bet_model(old(state)@, info.sender@, env.block_time, info.funds@, false),
        ),
{
    place_bet(state, env, info, false)
}

/// A winner's payout of `prize`, for `stake` of the winning side's `pool`.
fn compute_payout(prize: u128, pool: u128, stake: u128) -> (r: u128)
    requires
        payout_defined(prize, pool, stake),
    ensures
        r == payout(prize, pool, stake),
{
    prize * REWARD_SCALE / pool * stake / REWARD_SCALE
}

/// What the address of `key` is owed for its round, which `b` records as
/// closed, where it has not claimed it.
fn round_reward(state: &ContractState, key: &BetKey, b: BetInfo) -> (r: u128)
    requires
        !is_claimed(state@, key@),
        state@.bet_info.contains_key(key@.1),
        state@.bet_info[key@.1] == b,
        !reward_panics(state@, key@),
    ensures
        r == user_reward(state@, key@),
{
    if b.startPrice <= b.endPrice {
        match state.up.get(key) {
            Some(stake) => compute_payout(b.totalPrize, b.upBet, stake),
            None => 0,
        }
    } else {
        match state.down.get(key) {
            Some(stake) => compute_payout(b.totalPrize, b.downBet, stake),
            None => 0,
        }
    }
}

/// Whether the address of `key` has claimed its reward of the key's round.
fn has_claimed(state: &ContractState, key: &BetKey) -> (r: bool)
    ensures
        r == is_claimed(state@, key@),
{
    match state.claimed.get(key) {
        Some(c) => c,
        None => false,
    }
}

/// Claims the sender's reward of round `bet_id`: refused once claimed;
/// otherwise sends what the sender is owed (possibly nothing) and, where the
/// round is closed, marks it claimed.
pub fn execute_claim(
    state: &mut ContractState,
    _env: &Env,
    info: &MessageInfo,
    bet_id: u64,
) -> (r: Result<Response, ContractError>)
    requires
        !reward_panics(old(state)@, (info.sender@, bet_id)),
    ensures
        outcome_holds(r, old(state)@, final(state)@, claim_model(old(state)@, info.sender@, bet_id)),
{
    let key = BetKey::new(info.sender.clone(), bet_id);
    if has_claimed(state, &key) {
        return Err(ContractError::Claimed {  });
    }
    let mut reward: u128 = 0;
    match state.bet_info.get(&bet_id) {
        Some(b) => {
            reward = round_reward(state, &key, b);
            state.claimed.insert(key, true);
        },
        None => {},
    }
    let claim_message = BankMsg::Send {
        to_address: info.sender.clone(),
        amount: coins(reward, "inj"),
    };
    let r = Response::new().add_message(claim_message).add_attribute(
        "action",
        "claim".to_owned(),
    ).add_attribute("value", to_decimal(reward)).add_attribute(
        "addr",
        info.sender.clone(),
    ).add_attribute("bet_id", to_decimal(bet_id as u128));
    proof {
        let expected = claim_model(old(state)@, info.sender@, bet_id)->Ok_0;
        assert(r@.attributes =~= expected.1.attributes);
        assert(r@.messages =~= expected.1.messages);
        assert(state@ =~= expected.0);
    }
    Ok(r)
}

/// Runs the operation that `msg` names.
pub fn execute(
    state: &mut ContractState,
    env: &Env,
    info: &MessageInfo,
    msg: ExecuteMsg,
) -> (r: Result<Response, ContractError>)
    requires
        !execute_panics(old(state)@, env.block_time, *info, msg),
    ensures
        outcome_holds(
            r,
            old(state)@,
            final(state)@,
            execute_model(old(state)@, env.block_time, *info, msg),
        ),
{
    match msg {
        ExecuteMsg::Start { price } => execute_start_bet(state, env, info, price),
        ExecuteMsg::End { price } => execute_end_bet(state, env, info, price),
        ExecuteMsg::UpBet {  } => execute_up_bet(state, env, info),
        ExecuteMsg::DownBet {  } => execute_down_bet(state, env, info),
        ExecuteMsg::ClaimReward { bet_id } => execute_claim(state, env, info, bet_id),
    }
}

/// The current round, and the stakes of `addr` in it.
pub fn query_current_info(state: &ContractState, addr: &String) -> (r: Result<
    CurrentInfoResponse,
    StdError,
>)
    ensures
        r == current_info_model(state@, addr@),
{
    let round = match state.info {
        Some(i) => i,
        None => { return Err(StdError::NotFound { kind: StateItem::Info }); },
    };
    let bet = match state.current_bet {
        Some(b) => b,
        None => { return Err(StdError::NotFound { kind: StateItem::CurrentBet }); },
    };
    let key = BetKey::new(addr.clone(), round.id);
    let up_position = match state.up.get(&key) {
        Some(p) => p,
        None => 0,
    };
    let down_position = match state.down.get(&key) {
        Some(p) => p,
        None => 0,
    };
    Ok(
        CurrentInfoResponse {
            id: round.id,
            status: round.status,
            totalUp: bet.totalUp,
            totalDown: bet.totalDown,
            startTime: bet.startTime,
            endTime: bet.endTime,
            startPrice: bet.startPrice,
            upPosition: up_position,
            downPosition: down_position,
        },
    )
}

/// Closed round `bet_id`, or the all-zero round where it is not closed.
pub fn query_bet_info(state: &ContractState, bet_id: u64) -> (r: BetInfo)
    ensures
        r == bet_info_model(state@, bet_id),
{
    match state.bet_info.get(&bet_id) {
        Some(b) => b,
        None => BetInfo::default(),
    }
}

/// What `addr` would be paid by claiming round `bet_id`.
pub fn query_user_reward(state: &ContractState, addr: &String, bet_id: u64) -> (r: u128)
    requires
        !reward_panics(state@, (addr@, bet_id)),
    ensures
        r == user_reward(state@, (addr@, bet_id)),
{
    let key = BetKey::new(addr.clone(), bet_id);
    if has_claimed(state, &key) {
        return 0;
    }
    match state.bet_info.get(&bet_id) {
        Some(b) => round_reward(state, &key, b),
        None => 0,
    }
}

/// Answers the question that `msg` asks, at the block's time.
pub fn query(state: &ContractState, env: &Env, msg: QueryMsg) -> (r: Result<QueryResponse, StdError>)
    requires
        !query_panics(state@, msg),
    ensures
        r == query_model(state@, env.block_time, msg),
{
    match msg {
        QueryMsg::CurrentInfo { addr } => match query_current_info(state, &addr) {
            Ok(resp) => Ok(QueryResponse::CurrentInfo(resp)),
            Err(e) => Err(e),
        },
        QueryMsg::BetInfo { bet_id } => Ok(QueryResponse::BetInfo(query_bet_info(state, bet_id))),
        QueryMsg::UserReward { addr, bet_id } => Ok(
            QueryResponse::UserReward(query_user_reward(state, &addr, bet_id)),
        ),
        QueryMsg::TimeStampInfo {  } => Ok(QueryResponse::TimeStampInfo(env.block_time)),
    }
}

/// Whether the sender's stake and side pool `pool` would overflow, or no
/// "inj" coin be found, when betting on the side `up` (or else down).
fn bet_would_panic(state: &ContractState, env: &Env, info: &MessageInfo, up: bool) -> (r: bool)
    ensures
        r == bet_panics(state@, info.sender@, env.block_time, info.funds@, up),
{
    match (state.info, state.current_bet) {
        (Some(round), Some(bet)) => {
            if round.status != 1 || env.block_time > bet.endTime {
                return false;
            }
            match first_inj_amount(&info.funds) {
                None => true,
                Some(amount) => {
                    let pool = if up {
                        bet.totalUp
                    } else {
                        bet.totalDown
                    };
                    let key = BetKey::new(info.sender.clone(), round.id);
                    let held = if up {
                        state.up.get(&key)
                    } else {
                        state.down.get(&key)
                    };
                    let stake = match held {
                        Some(s) => s,
                        None => 0,
                    };
                    pool.checked_add(amount).is_none() || (amount >= MIN_BET && stake.checked_add(
                        amount,
                    ).is_none())
                },
            }
        },
        _ => false,
    }
}

/// Whether working out the reward of `addr` for round `bet_id` would divide
/// by zero or overflow.
fn reward_would_panic(state: &ContractState, addr: &String, bet_id: u64) -> (r: bool)
    ensures
        r == reward_panics(state@, (addr@, bet_id)),
{
    let key = BetKey::new(addr.clone(), bet_id);
    if has_claimed(state, &key) {
        return false;
    }
    match state.bet_info.get(&bet_id) {
        None => false,
        Some(b) => {
            let winning = if b.startPrice <= b.endPrice {
                match state.up.get(&key) {
                    Some(stake) => Some((b.upBet, stake)),
                    None => None,
                }
            } else {
                match state.down.get(&key) {
                    Some(stake) => Some((b.downBet, stake)),
                    None => None,
                }
            };
            match winning {
                None => false,
                Some((pool, stake)) => {
                    if pool == 0 {
                        return true;
                    }
                    match b.totalPrize.checked_mul(REWARD_SCALE) {
                        None => true,
                        Some(scaled) => (scaled / pool).checked_mul(stake).is_none(),
                    }
                },
            }
        },
    }
}

/// Whether `execute` with `msg` would overflow, divide by zero or find no
/// "inj" coin sent along: the inputs that its contract leaves out.
pub fn execute_would_panic(
    state: &ContractState,
    env: &Env,
    info: &MessageInfo,
    msg: &ExecuteMsg,
) -> (r: bool)
    ensures
        r == execute_panics(state@, env.block_time, *info, *msg),
{
    match msg {
        ExecuteMsg::Start { .. } => match (&state.owner, state.info) {
            (Some(owner), Some(round)) => owner.eq(&info.sender) && round.status == 0
                && env.block_time.checked_add(ROUND_SECONDS).is_none(),
            _ => false,
        },
        ExecuteMsg::End { .. } => match (&state.owner, state.info, state.current_bet) {
            (Some(owner), Some(round), Some(bet)) => {
                if !owner.eq(&info.sender) || round.status != 1 || env.block_time < bet.endTime {
                    false
                } else {
                    match bet.totalUp.checked_add(bet.totalDown) {
                        None => true,
                        Some(total) => total.checked_mul(99).is_none() || round.id == u64::MAX,
                    }
                }
            },
            _ => false,
        },
        ExecuteMsg::UpBet {  } => bet_would_panic(state, env, info, true),
        ExecuteMsg::DownBet {  } => bet_would_panic(state, env, info, false),
        ExecuteMsg::ClaimReward { bet_id } => reward_would_panic(state, &info.sender, *bet_id),
    }
}

/// Whether answering `msg` would divide by zero or overflow: the inputs
/// that the contract of `query` leaves out.
pub fn query_would_panic(state: &ContractState, msg: &QueryMsg) -> (r: bool)
    ensures
        r == query_panics(state@, *msg),
{
    match msg {
        QueryMsg::UserReward { addr, bet_id } => reward_would_panic(state, addr, *bet_id),
        _ => false,
    }
}

} // verus!
