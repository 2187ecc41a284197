//! What each operation yields, stated from its inputs: the reward a claim
//! pays and a query reports, which bets are taken and what they add, and
//! what the current round's answer reports.

use vstd::prelude::*;

use crate::chain::{BankMsgView, Coin, MessageInfo, ResponseView};
use crate::decimal::decimal;
use crate::error::ContractError;
use crate::model::{execute_model, execute_panics, first_inj, query_model, query_panics};
use crate::msg::{CurrentInfoResponse, ExecuteMsg, QueryMsg, QueryResponse};
use crate::state::{ContractModel, CurrentBetDetail, KeyView};

verus! {

/// The share of closed round `bet_id`'s prize that address `addr` has won:
/// where the price did not fall, the prize times its up stake over the up
/// pool, otherwise the prize times its down stake over the down pool, each
/// at a scale of one million and rounded down at each step; nothing
/// without a stake on the winning side.
pub open spec fn winning_share(m: ContractModel, addr: Seq<char>, bet_id: u64) -> int {
    let k = (addr, bet_id);
    let b = m.bet_info[bet_id];
    if b.startPrice <= b.endPrice {
        if m.up.contains_key(k) {
            (b.totalPrize as int) * 1000000 / (b.upBet as int) * (m.up[k] as int) / 1000000
        } else {
            0
        }
    } else {
        if m.down.contains_key(k) {
            (b.totalPrize as int) * 1000000 / (b.downBet as int) * (m.down[k] as int) / 1000000
        } else {
            0
        }
    }
}

/// Address `addr` has claimed round `bet_id`.
pub open spec fn has_claimed(m: ContractModel, addr: Seq<char>, bet_id: u64) -> bool {
    m.claimed.contains_key((addr, bet_id)) && m.claimed[(addr, bet_id)]
}

proof fn lemma_share_fits(prize: u128, pool: u128, stake: u128)
    requires
        pool > 0,
        (prize as int) * 1000000 <= u128::MAX,
        (prize as int) * 1000000 / (pool as int) * (stake as int) <= u128::MAX,
    ensures
        0 <= (prize as int) * 1000000 / (pool as int) * (stake as int) / 1000000 <= u128::MAX,
{
    let q = (prize as int) * 1000000 / (pool as int);
    assert(q >= 0) by (nonlinear_arith)
        requires
            pool > 0,
            q == (prize as int) * 1000000 / (pool as int),
    ;
    let x = q * (stake as int);
    assert(x >= 0) by (nonlinear_arith)
        requires
            q >= 0,
            x == q * (stake as int),
    ;
    assert(0 <= x / 1000000 <= x) by (nonlinear_arith)
        requires
            x >= 0,
    ;
}

/// Claiming a closed round that the sender has not claimed succeeds and
/// sends the sender its winning share, reports it as the claim's value,
/// marks the round claimed for the sender and changes nothing else; a
/// second claim of the round by the sender is then refused.
pub proof fn lemma_claim_pays_winning_share(
    m: ContractModel,
    now: u64,
    info: MessageInfo,
    bet_id: u64,
    later: u64,
)
    requires
        m.bet_info.contains_key(bet_id),
        !has_claimed(m, info.sender@, bet_id),
        !execute_panics(m, now, info, ExecuteMsg::ClaimReward { bet_id }),
    ensures
        ({
            let share = winning_share(m, info.sender@, bet_id);
            let out = execute_model(m, now, info, ExecuteMsg::ClaimReward { bet_id });
            let n = out->Ok_0.0;
            let r = out->Ok_0.1;
            &&& 0 <= share <= u128::MAX
            &&& out is Ok
            &&& r.messages == seq![
                BankMsgView::Send {
                    to_address: info.sender@,
                    amount: seq![("inj"@, share as u128)],
                },
            ]
            &&& r.attributes[1] == ("value"@, decimal(share as nat))
            &&& n.claimed == m.claimed.insert((info.sender@, bet_id), true)
            &&& n == ContractModel { claimed: n.claimed, ..m }
            &&& execute_model(n, later, info, ExecuteMsg::ClaimReward { bet_id }) == Err::<
                (ContractModel, ResponseView),
                ContractError,
            >(ContractError::Claimed {  })
        }),
{
    let k = (info.sender@, bet_id);
    let b = m.bet_info[bet_id];
    if b.startPrice <= b.endPrice {
        if m.up.contains_key(k) {
            lemma_share_fits(b.totalPrize, b.upBet, m.up[k]);
        }
    } else {
        if m.down.contains_key(k) {
            lemma_share_fits(b.totalPrize, b.downBet, m.down[k]);
        }
    }
}

/// The reward query answers nothing for a round that the address has
/// claimed or that is not closed, and its winning share otherwise.
pub proof fn lemma_reward_query_answers_share(
    m: ContractModel,
    now: u64,
    addr: String,
    bet_id: u64,
)
    requires
        !query_panics(m, QueryMsg::UserReward { addr, bet_id }),
    ensures
        ({
            let x = if has_claimed(m, addr@, bet_id) || !m.bet_info.contains_key(bet_id) {
                0
            } else {
                winning_share(m, addr@, bet_id)
            };
            &&& 0 <= x <= u128::MAX
            &&& query_model(m, now, QueryMsg::UserReward { addr, bet_id }) == Ok::<
                QueryResponse,
                crate::error::StdError,
            >(QueryResponse::UserReward(x as u128))
        }),
{
    let k = (addr@, bet_id);
    if !has_claimed(m, addr@, bet_id) && m.bet_info.contains_key(bet_id) {
        let b = m.bet_info[bet_id];
        if b.startPrice <= b.endPrice {
            if m.up.contains_key(k) {
                lemma_share_fits(b.totalPrize, b.upBet, m.up[k]);
            }
        } else {
            if m.down.contains_key(k) {
                lemma_share_fits(b.totalPrize, b.downBet, m.down[k]);
            }
        }
    }
}

/// The reward query previews a claim: where the sender's claim of a round
/// succeeds, it sends exactly what the query answered for the sender just
/// before.
pub proof fn lemma_reward_query_previews_claim(
    m: ContractModel,
    now: u64,
    info: MessageInfo,
    addr: String,
    bet_id: u64,
)
    requires
        addr@ == info.sender@,
        !query_panics(m, QueryMsg::UserReward { addr, bet_id }),
        execute_model(m, now, info, ExecuteMsg::ClaimReward { bet_id }) is Ok,
    ensures
        ({
            let sent = execute_model(m, now, info, ExecuteMsg::ClaimReward { bet_id })->Ok_0.1.messages[0];
            let answer = query_model(m, now, QueryMsg::UserReward { addr, bet_id });
            &&& answer is Ok
            &&& answer->Ok_0 matches QueryResponse::UserReward(x)
            &&& sent == BankMsgView::Send { to_address: info.sender@, amount: seq![("inj"@, x)] }
        }),
{
    lemma_reward_query_answers_share(m, now, addr, bet_id);
}

/// The first "inj" coin among `funds` is the first coin whose denomination
/// is "inj": where there is one, its amount; where there is none, nothing.
pub proof fn lemma_first_inj_is_first_inj_coin(funds: Seq<Coin>)
    ensures
        first_inj(funds) is None <==> forall|i: int| 0 <= i < funds.len() ==> funds[i].denom@ != "inj"@,
        first_inj(funds) is Some ==> exists|i: int|
            0 <= i < funds.len() && funds[i].denom@ == "inj"@ && funds[i].amount == first_inj(
                funds,
            )->0 && forall|j: int| 0 <= j < i ==> funds[j].denom@ != "inj"@,
    decreases funds.len(),
{
    if funds.len() > 0 {
        lemma_first_inj_is_first_inj_coin(funds.drop_first());
        if funds[0].denom@ != "inj"@ {
            if first_inj(funds) is Some {
                let i = choose|i: int|
                    0 <= i < funds.drop_first().len() && funds.drop_first()[i].denom@ == "inj"@
                        && funds.drop_first()[i].amount == first_inj(funds.drop_first())->0
                        && forall|j: int| 0 <= j < i ==> funds.drop_first()[j].denom@ != "inj"@;
                assert(funds[i + 1] == funds.drop_first()[i]);
                assert forall|j: int| 0 <= j < i + 1 implies funds[j].denom@ != "inj"@ by {
                    if j > 0 {
                        assert(funds[j] == funds.drop_first()[j - 1]);
                    }
                }
            } else {
                assert forall|i: int| 0 <= i < funds.len() implies funds[i].denom@ != "inj"@ by {
                    if i > 0 {
                        assert(funds[i] == funds.drop_first()[i - 1]);
                    }
                }
            }
        }
    }
}

/// The message of a bet on the side `up` (or else down).
pub open spec fn bet_msg(up: bool) -> ExecuteMsg {
    if up {
        ExecuteMsg::UpBet {  }
    } else {
        ExecuteMsg::DownBet {  }
    }
}

/// On an open round not past its end time, a bet whose first "inj" coin is
/// below 0.1 INJ is refused, on either side, whatever the sender already
/// holds.
pub proof fn lemma_small_bet_refused(m: ContractModel, now: u64, info: MessageInfo, up: bool)
    requires
        m.info is Some,
        m.current_bet is Some,
        m.info->0.status == 1,
        now <= m.current_bet->0.endTime,
        first_inj(info.funds@) is Some,
        first_inj(info.funds@)->0 < 100000000000000000,
    ensures
        execute_model(m, now, info, bet_msg(up)) == Err::<(ContractModel, ResponseView), ContractError>(
            ContractError::SmallBet {  },
        ),
{
}

/// On an open round not past its end time, a bet whose first "inj" coin is
/// at least 0.1 INJ is taken, on either side, whatever the sender already
/// holds on either side: the amount is added to that side's pool and to the
/// sender's stake on it, and nothing else changes.
pub proof fn lemma_bet_taken(m: ContractModel, now: u64, info: MessageInfo, up: bool)
    requires
        m.info is Some,
        m.current_bet is Some,
        m.info->0.status == 1,
        now <= m.current_bet->0.endTime,
        first_inj(info.funds@) is Some,
        first_inj(info.funds@)->0 >= 100000000000000000,
        !execute_panics(m, now, info, bet_msg(up)),
    ensures
        ({
            let a = first_inj(info.funds@)->0;
            let k: KeyView = (info.sender@, m.info->0.id);
            let c = m.current_bet->0;
            let out = execute_model(m, now, info, bet_msg(up));
            let n = out->Ok_0.0;
            let r = out->Ok_0.1;
            &&& out is Ok
            &&& up ==> n == ContractModel {
                current_bet: Some(CurrentBetDetail { totalUp: (c.totalUp + a) as u128, ..c }),
                up: m.up.insert(
                    k,
                    ((if m.up.contains_key(k) {
                        m.up[k] as int
                    } else {
                        0
                    }) + a) as u128,
                ),
                ..m
            }
            &&& !up ==> n == ContractModel {
                current_bet: Some(CurrentBetDetail { totalDown: (c.totalDown + a) as u128, ..c }),
                down: m.down.insert(
                    k,
                    ((if m.down.contains_key(k) {
                        m.down[k] as int
                    } else {
                        0
                    }) + a) as u128,
                ),
                ..m
            }
            &&& c.totalUp + (if up { a as int } else { 0 }) <= u128::MAX
            &&& c.totalDown + (if up { 0 } else { a as int }) <= u128::MAX
            &&& r.messages.len() == 0
            &&& r.attributes == seq![
                ("action"@, if up { "up_bet"@ } else { "down_bet"@ }),
                ("value"@, decimal(a as nat)),
            ]
        }),
{
}

/// The current-round answer reports the stored round as it is, and the
/// address's stakes in it (zero where it has none).
pub proof fn lemma_current_info_reports_round(m: ContractModel, now: u64, addr: String)
    requires
        m.info is Some,
        m.current_bet is Some,
    ensures
        ({
            let i = m.info->0;
            let c = m.current_bet->0;
            let k = (addr@, i.id);
            query_model(m, now, QueryMsg::CurrentInfo { addr }) == Ok::<
                QueryResponse,
                crate::error::StdError,
            >(
                QueryResponse::CurrentInfo(
                    CurrentInfoResponse {
                        id: i.id,
                        status: i.status,
                        totalUp: c.totalUp,
                        totalDown: c.totalDown,
                        startTime: c.startTime,
                        endTime: c.endTime,
                        startPrice: c.startPrice,
                        upPosition: if m.up.contains_key(k) {
                            m.up[k]
                        } else {
                            0
                        },
                        downPosition: if m.down.contains_key(k) {
                            m.down[k]
                        } else {
                            0
                        },
                    },
                ),
            )
        }),
{
}

/// After the owner starts a round at `t0` and price `price`, the
/// current-round answer reports it open since `t0` until `t0` plus 300
/// seconds, at `price`, with empty pools.
pub proof fn lemma_started_round_reported(
    m: ContractModel,
    t0: u64,
    info: MessageInfo,
    price: u128,
    now: u64,
    addr: String,
)
    requires
        execute_model(m, t0, info, ExecuteMsg::Start { price }) is Ok,
        !execute_panics(m, t0, info, ExecuteMsg::Start { price }),
    ensures
        ({
            let n = execute_model(m, t0, info, ExecuteMsg::Start { price })->Ok_0.0;
            let answer = query_model(n, now, QueryMsg::CurrentInfo { addr });
            &&& answer is Ok
            &&& answer->Ok_0 matches QueryResponse::CurrentInfo(c)
            &&& c.startTime == t0
            &&& c.endTime == t0 + 300
            &&& c.startPrice == price
            &&& c.totalUp == 0
            &&& c.totalDown == 0
            &&& c.status == 1
            &&& c.id == m.info->0.id
        }),
{
}

/// The owner starts a pending round: it opens at the block's time for 300
/// seconds at `price` with empty pools, and the answer reports the price.
/// Anyone else is refused, and so is starting a round that is not pending.
pub proof fn lemma_start_opens_round(m: ContractModel, now: u64, info: MessageInfo, price: u128)
    requires
        m.owner is Some,
        m.info is Some,
        !execute_panics(m, now, info, ExecuteMsg::Start { price }),
    ensures
        ({
            let out = execute_model(m, now, info, ExecuteMsg::Start { price });
            let i = m.info->0;
            &&& m.owner->0 != info.sender@ ==> out == Err::<
                (ContractModel, ResponseView),
                ContractError,
            >(ContractError::Unauthorized {  })
            &&& m.owner->0 == info.sender@ && i.status != 0 ==> out == Err::<
                (ContractModel, ResponseView),
                ContractError,
            >(ContractError::NotPendingID {  })
            &&& m.owner->0 == info.sender@ && i.status == 0 ==> {
                &&& out is Ok
                &&& now + 300 <= u64::MAX
                &&& out->Ok_0.0 == ContractModel {
                    info: Some(crate::state::Info { id: i.id, status: 1 }),
                    current_bet: Some(
                        CurrentBetDetail {
                            totalUp: 0,
                            totalDown: 0,
                            startTime: now,
                            endTime: (now + 300) as u64,
                            startPrice: price,
                        },
                    ),
                    ..m
                }
                &&& out->Ok_0.1.messages.len() == 0
                &&& out->Ok_0.1.attributes == seq![
                    ("action"@, "execute_start_bet"@),
                    ("start_price"@, decimal(price as nat)),
                ]
            }
        }),
{
}

/// The owner ends an open round from its end time on: the round is recorded
/// with its pools, 99 percent of their total (rounded down) as its prize,
/// and its start and end prices; the next round becomes pending with an
/// all-zero current round; and the rest of the pools goes to the owner.
/// Anyone else is refused, and so is ending a round that is not open or
/// before its end time.
pub proof fn lemma_end_closes_round(m: ContractModel, now: u64, info: MessageInfo, price: u128)
    requires
        m.owner is Some,
        m.info is Some,
        m.current_bet is Some,
        !execute_panics(m, now, info, ExecuteMsg::End { price }),
    ensures
        ({
            let out = execute_model(m, now, info, ExecuteMsg::End { price });
            let i = m.info->0;
            let c = m.current_bet->0;
            let total = c.totalUp + c.totalDown;
            let prize = total * 99 / 100;
            &&& m.owner->0 != info.sender@ ==> out == Err::<
                (ContractModel, ResponseView),
                ContractError,
            >(ContractError::Unauthorized {  })
            &&& m.owner->0 == info.sender@ && i.status != 1 ==> out == Err::<
                (ContractModel, ResponseView),
                ContractError,
            >(ContractError::NotOpeningID {  })
            &&& m.owner->0 == info.sender@ && i.status == 1 && now < c.endTime ==> out == Err::<
                (ContractModel, ResponseView),
                ContractError,
            >(ContractError::BetIDNotEnd {  })
            &&& m.owner->0 == info.sender@ && i.status == 1 && now >= c.endTime ==> {
                &&& out is Ok
                &&& 0 <= prize <= total <= u128::MAX
                &&& out->Ok_0.0 == ContractModel {
                    bet_info: m.bet_info.insert(
                        i.id,
                        crate::state::BetInfo {
                            upBet: c.totalUp,
                            downBet: c.totalDown,
                            totalPrize: prize as u128,
                            startPrice: c.startPrice,
                            endPrice: price,
                        },
                    ),
                    info: Some(crate::state::Info { id: (i.id + 1) as u64, status: 0 }),
                    current_bet: Some(
                        CurrentBetDetail {
                            totalUp: 0,
                            totalDown: 0,
                            startTime: 0,
                            endTime: 0,
                            startPrice: 0,
                        },
                    ),
                    ..m
                }
                &&& out->Ok_0.1.messages == seq![
                    BankMsgView::Send {
                        to_address: info.sender@,
                        amount: seq![("inj"@, (total - prize) as u128)],
                    },
                ]
                &&& out->Ok_0.1.attributes == seq![
                    ("action"@, "execute_end_bet"@),
                    ("end_price"@, decimal(price as nat)),
                    ("fee"@, decimal((total - prize) as nat)),
                ]
            }
        }),
{
}

/// Bets are refused while no round is open, and after the open round's end
/// time.
pub proof fn lemma_bet_outside_round_refused(m: ContractModel, now: u64, info: MessageInfo, up: bool)
    requires
        m.info is Some,
        m.current_bet is Some,
    ensures
        m.info->0.status != 1 ==> execute_model(m, now, info, bet_msg(up)) == Err::<
            (ContractModel, ResponseView),
            ContractError,
        >(ContractError::CannotBet {  }),
        m.info->0.status == 1 && now > m.current_bet->0.endTime ==> execute_model(
            m,
            now,
            info,
            bet_msg(up),
        ) == Err::<(ContractModel, ResponseView), ContractError>(ContractError::BetIDEnd {  }),
{
}

/// Claiming a round that is not closed succeeds, sends nothing, and
/// changes nothing, unless the sender has claimed it, which is refused.
pub proof fn lemma_claim_of_open_round(m: ContractModel, now: u64, info: MessageInfo, bet_id: u64)
    requires
        !m.bet_info.contains_key(bet_id),
    ensures
        has_claimed(m, info.sender@, bet_id) ==> execute_model(
            m,
            now,
            info,
            ExecuteMsg::ClaimReward { bet_id },
        ) == Err::<(ContractModel, ResponseView), ContractError>(ContractError::Claimed {  }),
        !has_claimed(m, info.sender@, bet_id) ==> {
            let out = execute_model(m, now, info, ExecuteMsg::ClaimReward { bet_id });
            &&& out is Ok
            &&& out->Ok_0.0 == m
            &&& out->Ok_0.1.messages == seq![
                BankMsgView::Send { to_address: info.sender@, amount: seq![("inj"@, 0u128)] },
            ]
        },
{
}

/// The closed-round query answers a closed round's record, and the
/// all-zero round for a round that is not closed.
pub proof fn lemma_bet_info_query(m: ContractModel, now: u64, bet_id: u64)
    ensures
        query_model(m, now, QueryMsg::BetInfo { bet_id }) == Ok::<QueryResponse, crate::error::StdError>(
            QueryResponse::BetInfo(
                if m.bet_info.contains_key(bet_id) {
                    m.bet_info[bet_id]
                } else {
                    crate::state::BetInfo {
                        upBet: 0,
                        downBet: 0,
                        totalPrize: 0,
                        startPrice: 0,
                        endPrice: 0,
                    }
                },
            ),
        ),
{
}

} // verus!
