use updown_bet::chain::{BankMsg, Coin, Env, MessageInfo, Response};
use updown_bet::contract::{
    execute, execute_claim, execute_down_bet, execute_end_bet, execute_start_bet, execute_up_bet,
    execute_would_panic, instantiate, query, query_bet_info, query_current_info,
    query_user_reward, query_would_panic,
};
use updown_bet::decimal::to_decimal;
use updown_bet::error::{ContractError, StateItem, StdError};
use updown_bet::model::{MIN_BET, ROUND_SECONDS};
use updown_bet::msg::{ExecuteMsg, InstantiateMsg, QueryMsg, QueryResponse};
use updown_bet::state::{BetInfo, ContractState, CurrentBetDetail, Info};

const INJ: u128 = 1_000_000_000_000_000_000;

fn sender(addr: &str) -> MessageInfo {
    MessageInfo { sender: addr.to_string(), funds: Vec::new() }
}

fn paying(addr: &str, amount: u128) -> MessageInfo {
    MessageInfo { sender: addr.to_string(), funds: vec![Coin::new(amount, "inj")] }
}

fn at(t: u64) -> Env {
    Env { block_time: t }
}

fn attrs(r: &Response) -> Vec<(String, String)> {
    r.attributes.iter().map(|a| (a.key.clone(), a.value.clone())).collect()
}

fn sends(r: &Response) -> Vec<(String, Vec<(String, u128)>)> {
    r.messages
        .iter()
        .map(|m| match m {
            BankMsg::Send { to_address, amount } => (
                to_address.clone(),
                amount.iter().map(|c| (c.denom.clone(), c.amount)).collect(),
            ),
        })
        .collect()
}

fn pair(k: &str, v: &str) -> (String, String) {
    (k.to_string(), v.to_string())
}

fn instantiated() -> ContractState {
    let mut st = ContractState::new();
    instantiate(&mut st, &at(1000), &sender("owner"), InstantiateMsg {});
    st
}

fn open_round() -> ContractState {
    let mut st = instantiated();
    execute_start_bet(&mut st, &at(1000), &sender("owner"), 50).unwrap();
    st
}

#[test]
fn instantiate_sets_owner_and_pending_round() {
    let mut st = ContractState::new();
    let r = instantiate(&mut st, &at(5), &sender("creator"), InstantiateMsg {});
    assert_eq!(attrs(&r), vec![pair("method", "instantiate"), pair("owner", "creator")]);
    assert!(r.messages.is_empty());
    assert_eq!(st.owner, Some("creator".to_string()));
    assert_eq!(st.info, Some(Info { id: 0, status: 0 }));
    assert_eq!(
        st.current_bet,
        Some(CurrentBetDetail { totalUp: 0, totalDown: 0, startTime: 0, endTime: 0, startPrice: 0 })
    );
}

#[test]
fn operations_before_instantiation_fail_not_found() {
    let mut st = ContractState::new();
    let e = execute_start_bet(&mut st, &at(1), &sender("owner"), 1).err().unwrap();
    assert_eq!(e, ContractError::Std(StdError::NotFound { kind: StateItem::Owner }));
    let e = execute_up_bet(&mut st, &at(1), &paying("a", INJ)).err().unwrap();
    assert_eq!(e, ContractError::Std(StdError::NotFound { kind: StateItem::Info }));
    let e = query_current_info(&st, &"a".to_string()).err().unwrap();
    assert_eq!(e, StdError::NotFound { kind: StateItem::Info });
    assert_eq!(
        ContractError::Std(StdError::NotFound { kind: StateItem::Info }).message(),
        "type: updown_bet::state::Info; key: [69, 6E, 66, 6F] not found"
    );
    assert_eq!(
        ContractError::Std(StdError::NotFound { kind: StateItem::Owner }).message(),
        "type: cosmwasm_std::addresses::Addr; key: [4F, 77, 6E, 65, 72] not found"
    );
}

#[test]
fn end_without_current_bet_fails_not_found() {
    let mut st = ContractState::new();
    st.owner = Some("owner".to_string());
    st.info = Some(Info { id: 0, status: 1 });
    let e = execute_end_bet(&mut st, &at(1), &sender("owner"), 1).err().unwrap();
    assert_eq!(e, ContractError::Std(StdError::NotFound { kind: StateItem::CurrentBet }));
}

#[test]
fn start_opens_round_for_five_minutes() {
    let mut st = instantiated();
    let r = execute_start_bet(&mut st, &at(1000), &sender("owner"), 1234).unwrap();
    assert_eq!(attrs(&r), vec![pair("action", "execute_start_bet"), pair("start_price", "1234")]);
    assert_eq!(st.info, Some(Info { id: 0, status: 1 }));
    assert_eq!(
        st.current_bet,
        Some(CurrentBetDetail {
            totalUp: 0,
            totalDown: 0,
            startTime: 1000,
            endTime: 1000 + ROUND_SECONDS,
            startPrice: 1234
        })
    );
}

#[test]
fn only_owner_starts_and_ends() {
    let mut st = instantiated();
    let e = execute_start_bet(&mut st, &at(1000), &sender("mallory"), 1).err().unwrap();
    assert_eq!(e, ContractError::Unauthorized {});
    assert_eq!(e.message(), "Unauthorized");
    assert_eq!(st.info, Some(Info { id: 0, status: 0 }));
    execute_start_bet(&mut st, &at(1000), &sender("owner"), 1).unwrap();
    let e = execute_end_bet(&mut st, &at(2000), &sender("mallory"), 1).err().unwrap();
    assert_eq!(e, ContractError::Unauthorized {});
}

#[test]
fn start_twice_fails_not_pending() {
    let mut st = open_round();
    let e = execute_start_bet(&mut st, &at(1100), &sender("owner"), 1).err().unwrap();
    assert_eq!(e, ContractError::NotPendingID {});
    assert_eq!(st.current_bet.unwrap().startTime, 1000);
}

#[test]
fn end_of_pending_round_fails_not_opening() {
    let mut st = instantiated();
    let e = execute_end_bet(&mut st, &at(1000), &sender("owner"), 1).err().unwrap();
    assert_eq!(e, ContractError::NotOpeningID {});
}

#[test]
fn end_before_end_time_fails() {
    let mut st = open_round();
    let e = execute_end_bet(&mut st, &at(1299), &sender("owner"), 1).err().unwrap();
    assert_eq!(e, ContractError::BetIDNotEnd {});
    assert_eq!(st.info, Some(Info { id: 0, status: 1 }));
}

#[test]
fn bet_on_pending_round_fails() {
    let mut st = instantiated();
    let e = execute_up_bet(&mut st, &at(1000), &paying("a", INJ)).err().unwrap();
    assert_eq!(e, ContractError::CannotBet {});
}

#[test]
fn bet_after_end_time_fails() {
    let mut st = open_round();
    let e = execute_down_bet(&mut st, &at(1301), &paying("a", INJ)).err().unwrap();
    assert_eq!(e, ContractError::BetIDEnd {});
    // at the end time itself the bet is still taken
    assert!(execute_down_bet(&mut st, &at(1300), &paying("a", INJ)).is_ok());
}

#[test]
fn small_bet_fails_and_changes_nothing() {
    let mut st = open_round();
    let e = execute_up_bet(&mut st, &at(1000), &paying("a", MIN_BET - 1)).err().unwrap();
    assert_eq!(e, ContractError::SmallBet {});
    assert_eq!(st.current_bet.unwrap().totalUp, 0);
    assert_eq!(query_current_info(&st, &"a".to_string()).unwrap().upPosition, 0);
    assert!(execute_up_bet(&mut st, &at(1000), &paying("a", MIN_BET)).is_ok());
}

#[test]
fn bets_add_to_pools_and_positions() {
    let mut st = open_round();
    let r = execute_up_bet(&mut st, &at(1010), &paying("alice", 2 * INJ)).unwrap();
    assert_eq!(attrs(&r), vec![pair("action", "up_bet"), pair("value", "2000000000000000000")]);
    execute_up_bet(&mut st, &at(1020), &paying("alice", INJ)).unwrap();
    let r = execute_down_bet(&mut st, &at(1030), &paying("bob", 3 * INJ)).unwrap();
    assert_eq!(attrs(&r), vec![pair("action", "down_bet"), pair("value", "3000000000000000000")]);
    let alice = query_current_info(&st, &"alice".to_string()).unwrap();
    assert_eq!(alice.totalUp, 3 * INJ);
    assert_eq!(alice.totalDown, 3 * INJ);
    assert_eq!(alice.upPosition, 3 * INJ);
    assert_eq!(alice.downPosition, 0);
    assert_eq!(alice.id, 0);
    assert_eq!(alice.status, 1);
    assert_eq!(alice.endTime, 1300);
    assert_eq!(alice.startPrice, 50);
    let bob = query_current_info(&st, &"bob".to_string()).unwrap();
    assert_eq!(bob.downPosition, 3 * INJ);
    assert_eq!(bob.upPosition, 0);
}

#[test]
fn only_first_inj_coin_counts() {
    let mut st = open_round();
    let info = MessageInfo {
        sender: "alice".to_string(),
        funds: vec![Coin::new(5, "usdt"), Coin::new(INJ, "inj"), Coin::new(7 * INJ, "inj")],
    };
    execute_up_bet(&mut st, &at(1000), &info).unwrap();
    assert_eq!(st.current_bet.unwrap().totalUp, INJ);
}

#[test]
fn bet_without_inj_is_left_out() {
    let st = open_round();
    let info = MessageInfo { sender: "alice".to_string(), funds: vec![Coin::new(INJ, "usdt")] };
    assert!(execute_would_panic(&st, &at(1000), &info, &ExecuteMsg::UpBet {}));
    assert!(!execute_would_panic(&st, &at(1000), &paying("alice", INJ), &ExecuteMsg::UpBet {}));
    // a refused bet is refused before the coins are looked at
    assert!(!execute_would_panic(&st, &at(2000), &info, &ExecuteMsg::UpBet {}));
}

#[test]
fn overflowing_operations_are_left_out() {
    let st = instantiated();
    assert!(execute_would_panic(
        &st,
        &at(u64::MAX - 10),
        &sender("owner"),
        &ExecuteMsg::Start { price: 1 }
    ));
    let mut st = open_round();
    st.current_bet = Some(CurrentBetDetail { totalUp: u128::MAX, ..st.current_bet.unwrap() });
    assert!(execute_would_panic(&st, &at(1000), &paying("a", INJ), &ExecuteMsg::UpBet {}));
    assert!(execute_would_panic(&st, &at(1300), &sender("owner"), &ExecuteMsg::End { price: 1 }));
}

#[test]
fn end_records_round_and_pays_fee() {
    let mut st = open_round();
    execute_up_bet(&mut st, &at(1000), &paying("alice", 3 * INJ)).unwrap();
    execute_down_bet(&mut st, &at(1000), &paying("bob", INJ)).unwrap();
    let r = execute_end_bet(&mut st, &at(1300), &sender("owner"), 60).unwrap();
    let total = 4 * INJ;
    let prize = total * 99 / 100;
    let fee = total - prize;
    assert_eq!(fee, 40_000_000_000_000_000);
    assert_eq!(sends(&r), vec![("owner".to_string(), vec![("inj".to_string(), fee)])]);
    assert_eq!(
        attrs(&r),
        vec![pair("action", "execute_end_bet"), pair("end_price", "60"), pair("fee", "40000000000000000")]
    );
    assert_eq!(st.info, Some(Info { id: 1, status: 0 }));
    assert_eq!(st.current_bet, Some(CurrentBetDetail::default()));
    assert_eq!(
        query_bet_info(&st, 0),
        BetInfo { upBet: 3 * INJ, downBet: INJ, totalPrize: prize, startPrice: 50, endPrice: 60 }
    );
    assert_eq!(query_bet_info(&st, 1), BetInfo::default());
}

#[test]
fn winners_share_prize_in_proportion_to_stake() {
    let mut st = open_round();
    execute_up_bet(&mut st, &at(1000), &paying("alice", 3 * INJ)).unwrap();
    execute_up_bet(&mut st, &at(1000), &paying("carol", INJ)).unwrap();
    execute_down_bet(&mut st, &at(1000), &paying("bob", 4 * INJ)).unwrap();
    execute_end_bet(&mut st, &at(1300), &sender("owner"), 50).unwrap();
    // the price did not fall: the up side wins
    let prize = 8 * INJ * 99 / 100;
    let share = |stake: u128| prize * 1_000_000 / (4 * INJ) * stake / 1_000_000;
    assert_eq!(query_user_reward(&st, &"alice".to_string(), 0), share(3 * INJ));
    assert_eq!(query_user_reward(&st, &"carol".to_string(), 0), share(INJ));
    assert_eq!(query_user_reward(&st, &"bob".to_string(), 0), 0);
    assert_eq!(share(3 * INJ), 5_940_000_000_000_000_000);
    assert!(share(3 * INJ) + share(INJ) <= prize);
}

#[test]
fn down_side_wins_when_price_falls() {
    let mut st = open_round();
    execute_up_bet(&mut st, &at(1000), &paying("alice", INJ)).unwrap();
    execute_down_bet(&mut st, &at(1000), &paying("bob", INJ)).unwrap();
    execute_end_bet(&mut st, &at(1300), &sender("owner"), 49).unwrap();
    assert_eq!(query_user_reward(&st, &"alice".to_string(), 0), 0);
    assert_eq!(query_user_reward(&st, &"bob".to_string(), 0), 2 * INJ * 99 / 100);
}

#[test]
fn claim_pays_once() {
    let mut st = open_round();
    execute_up_bet(&mut st, &at(1000), &paying("alice", INJ)).unwrap();
    execute_end_bet(&mut st, &at(1300), &sender("owner"), 51).unwrap();
    let owed = query_user_reward(&st, &"alice".to_string(), 0);
    assert_eq!(owed, INJ * 99 / 100);
    let r = execute_claim(&mut st, &at(1400), &sender("alice"), 0).unwrap();
    assert_eq!(sends(&r), vec![("alice".to_string(), vec![("inj".to_string(), owed)])]);
    assert_eq!(
        attrs(&r),
        vec![
            pair("action", "claim"),
            pair("value", "990000000000000000"),
            pair("addr", "alice"),
            pair("bet_id", "0")
        ]
    );
    let e = execute_claim(&mut st, &at(1500), &sender("alice"), 0).err().unwrap();
    assert_eq!(e, ContractError::Claimed {});
    assert_eq!(e.message(), "Reward Claimed");
    assert_eq!(query_user_reward(&st, &"alice".to_string(), 0), 0);
}

#[test]
fn loser_claim_pays_nothing_and_marks_claimed() {
    let mut st = open_round();
    execute_up_bet(&mut st, &at(1000), &paying("alice", INJ)).unwrap();
    execute_down_bet(&mut st, &at(1000), &paying("bob", INJ)).unwrap();
    execute_end_bet(&mut st, &at(1300), &sender("owner"), 70).unwrap();
    let r = execute_claim(&mut st, &at(1400), &sender("bob"), 0).unwrap();
    assert_eq!(sends(&r), vec![("bob".to_string(), vec![("inj".to_string(), 0)])]);
    assert_eq!(execute_claim(&mut st, &at(1400), &sender("bob"), 0).err().unwrap(), ContractError::Claimed {});
}

#[test]
fn claim_of_unclosed_round_pays_nothing_and_can_be_repeated() {
    let mut st = open_round();
    execute_up_bet(&mut st, &at(1000), &paying("alice", INJ)).unwrap();
    let r = execute_claim(&mut st, &at(1100), &sender("alice"), 0).unwrap();
    assert_eq!(sends(&r), vec![("alice".to_string(), vec![("inj".to_string(), 0)])]);
    assert!(execute_claim(&mut st, &at(1100), &sender("alice"), 0).is_ok());
    assert!(execute_claim(&mut st, &at(1100), &sender("alice"), 7).is_ok());
    // the round pays out once closed
    execute_end_bet(&mut st, &at(1300), &sender("owner"), 50).unwrap();
    assert_eq!(query_user_reward(&st, &"alice".to_string(), 0), INJ * 99 / 100);
}

#[test]
fn round_cycle_advances_id() {
    let mut st = instantiated();
    for round in 0..3u64 {
        let t = 1000 + round * 1000;
        execute_start_bet(&mut st, &at(t), &sender("owner"), 10 + round as u128).unwrap();
        execute_end_bet(&mut st, &at(t + 300), &sender("owner"), 20).unwrap();
        assert_eq!(st.info, Some(Info { id: round + 1, status: 0 }));
        assert_eq!(query_bet_info(&st, round).startPrice, 10 + round as u128);
    }
}

#[test]
fn execute_and_query_dispatch() {
    let mut st = instantiated();
    execute(&mut st, &at(1000), &sender("owner"), ExecuteMsg::Start { price: 7 }).unwrap();
    execute(&mut st, &at(1000), &paying("a", INJ), ExecuteMsg::UpBet {}).unwrap();
    execute(&mut st, &at(1000), &paying("b", INJ), ExecuteMsg::DownBet {}).unwrap();
    execute(&mut st, &at(1300), &sender("owner"), ExecuteMsg::End { price: 8 }).unwrap();
    execute(&mut st, &at(1400), &sender("a"), ExecuteMsg::ClaimReward { bet_id: 0 }).unwrap();
    let q = QueryMsg::UserReward { addr: "b".to_string(), bet_id: 0 };
    assert!(!query_would_panic(&st, &q));
    assert_eq!(query(&st, &at(1), q).unwrap(), QueryResponse::UserReward(0));
    assert_eq!(
        query(&st, &at(1), QueryMsg::BetInfo { bet_id: 0 }).unwrap(),
        QueryResponse::BetInfo(query_bet_info(&st, 0))
    );
    assert_eq!(query(&st, &at(99), QueryMsg::TimeStampInfo {}).unwrap(), QueryResponse::TimeStampInfo(99));
    match query(&st, &at(1), QueryMsg::CurrentInfo { addr: "a".to_string() }).unwrap() {
        QueryResponse::CurrentInfo(c) => assert_eq!((c.id, c.status), (1, 0)),
        other => panic!("unexpected answer {:?}", other),
    }
}

#[test]
fn zero_pool_winner_is_left_out() {
    let mut st = instantiated();
    st.bet_info.insert(0, BetInfo { upBet: 0, downBet: 0, totalPrize: 5, startPrice: 1, endPrice: 2 });
    st.up.insert(updown_bet::state::BetKey::new("a".to_string(), 0), 3);
    assert!(query_would_panic(&st, &QueryMsg::UserReward { addr: "a".to_string(), bet_id: 0 }));
    assert!(execute_would_panic(&st, &at(0), &sender("a"), &ExecuteMsg::ClaimReward { bet_id: 0 }));
}

#[test]
fn decimal_text() {
    assert_eq!(to_decimal(0), "0");
    assert_eq!(to_decimal(7), "7");
    assert_eq!(to_decimal(10), "10");
    assert_eq!(to_decimal(1234567890), "1234567890");
    assert_eq!(to_decimal(u128::MAX), u128::MAX.to_string());
}

#[test]
fn table_holds_last_value_once() {
    let mut st = ContractState::new();
    st.bet_info.insert(3, BetInfo::default());
    st.bet_info.insert(3, BetInfo { upBet: 1, ..BetInfo::default() });
    st.bet_info.insert(4, BetInfo::default());
    let pairs = st.bet_info.to_pairs();
    assert_eq!(pairs.len(), 2);
    assert_eq!(st.bet_info.get(&3).unwrap().upBet, 1);
    assert!(st.bet_info.get(&5).is_none());
}

#[test]
fn claim_and_closed_round_survive_later_calls() {
    let mut st = open_round();
    execute_up_bet(&mut st, &at(1000), &paying("alice", INJ)).unwrap();
    execute_down_bet(&mut st, &at(1000), &paying("bob", 2 * INJ)).unwrap();
    execute_end_bet(&mut st, &at(1300), &sender("owner"), 60).unwrap();
    let closed = query_bet_info(&st, 0);
    assert_eq!(
        closed,
        BetInfo { upBet: INJ, downBet: 2 * INJ, totalPrize: 3 * INJ * 99 / 100, startPrice: 50, endPrice: 60 }
    );
    execute_claim(&mut st, &at(1400), &sender("alice"), 0).unwrap();
    // more rounds, bets and claims follow
    execute_start_bet(&mut st, &at(2000), &sender("owner"), 70).unwrap();
    execute_up_bet(&mut st, &at(2000), &paying("alice", INJ)).unwrap();
    let e = execute_end_bet(&mut st, &at(2299), &sender("owner"), 80).err().unwrap();
    assert_eq!(e, ContractError::BetIDNotEnd {});
    execute_end_bet(&mut st, &at(2300), &sender("owner"), 80).unwrap();
    execute_claim(&mut st, &at(2400), &sender("bob"), 0).unwrap();
    execute_claim(&mut st, &at(2400), &sender("alice"), 1).unwrap();
    assert_eq!(query_bet_info(&st, 0), closed);
    let e = execute_claim(&mut st, &at(2500), &sender("alice"), 0).err().unwrap();
    assert_eq!(e, ContractError::Claimed {});
}

#[test]
fn claims_of_a_round_stay_within_its_prize() {
    let mut st = open_round();
    execute_up_bet(&mut st, &at(1000), &paying("a", INJ)).unwrap();
    execute_up_bet(&mut st, &at(1000), &paying("b", INJ)).unwrap();
    execute_up_bet(&mut st, &at(1000), &paying("c", INJ)).unwrap();
    execute_down_bet(&mut st, &at(1000), &paying("d", 7 * INJ / 10)).unwrap();
    execute_end_bet(&mut st, &at(1300), &sender("owner"), 90).unwrap();
    let prize = query_bet_info(&st, 0).totalPrize;
    let mut paid: u128 = 0;
    for who in ["a", "b", "c", "d", "a", "e"] {
        if let Ok(r) = execute_claim(&mut st, &at(1400), &sender(who), 0) {
            for (_, coins) in sends(&r) {
                paid += coins[0].1;
            }
        }
    }
    assert!(paid <= prize);
    assert_eq!(paid, 3 * (prize * 1_000_000 / (3 * INJ) * INJ / 1_000_000));
}
