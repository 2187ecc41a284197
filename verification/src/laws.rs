//! Properties of the contract as a whole: the state that instantiation
//! starts from and that every operation keeps, what one operation means for
//! the next, and what holds over any sequence of calls.

use vstd::prelude::*;

use crate::chain::{BankMsgView, Coin, MessageInfo, ResponseView};
use crate::error::ContractError;
use crate::model::{
    bet_info_model, bet_model, bet_panics, claim_model, end_bet_model, end_bet_panics, execute_model,
    execute_panics, first_inj, instantiate_model, is_claimed, payout, prize_of, send_inj,
    side_book, side_pool, stake_in, start_bet_model, start_bet_panics, user_reward,
    winning_stake, MIN_BET, REWARD_SCALE, ROUND_SECONDS, reward_panics,
};
use crate::msg::ExecuteMsg;
use crate::state::{empty_bet_detail, empty_model, BetInfo, ContractModel, KeyView};
use crate::sums::{
    lemma_set_sum_congruent, lemma_set_sum_empty, lemma_set_sum_insert, lemma_set_sum_le, lemma_set_sum_nonneg,
    lemma_set_sum_remove, lemma_set_sum_scale, lemma_set_sum_subset, lemma_set_sum_term_le,
    lemma_set_sum_zero, set_sum,
};

verus! {

/// The pool of the side `up` (or else down) of closed round `b`.
pub open spec fn closed_pool(b: BetInfo, up: bool) -> u128 {
    if up {
        b.upBet
    } else {
        b.downBet
    }
}

/// The keys of the stakes in `book` that belong to round `id`.
pub open spec fn round_keys(book: Map<KeyView, u128>, id: u64) -> Set<KeyView> {
    book.dom().filter(|k: KeyView| k.1 == id)
}

/// The stake of a key in `book`, as an integer.
pub open spec fn stake_fn(book: Map<KeyView, u128>) -> spec_fn(KeyView) -> int {
    |k: KeyView| book[k] as int
}

/// The sum of the stakes in `book` on round `id`.
pub open spec fn stake_total(book: Map<KeyView, u128>, id: u64) -> int {
    set_sum(round_keys(book, id), stake_fn(book))
}

/// Each stake in `book` belongs to a closed round, or to the current round
/// while it is open.
pub open spec fn stakes_placed(m: ContractModel, book: Map<KeyView, u128>) -> bool {
    forall|k: KeyView| #[trigger]
        book.contains_key(k) ==> k.1 < m.info->0.id || (k.1 == m.info->0.id && m.info->0.status
            == 1)
}

/// The rounds are in order: the round and the current round are stored; a
/// round is pending (0) or open (1), and while pending the current round is
/// all zero; a round is closed exactly when its id is below the current
/// one; stakes exist only for closed rounds and the open one; and claims
/// exist only for earlier rounds.
pub open spec fn rounds_in_order(m: ContractModel) -> bool {
    &&& m.info is Some
    &&& m.current_bet is Some
    &&& m.info->0.status <= 1
    &&& m.info->0.status == 0 ==> m.current_bet->0 == empty_bet_detail()
    &&& forall|id: u64| #[trigger] m.bet_info.contains_key(id) <==> id < m.info->0.id
    &&& stakes_placed(m, m.up)
    &&& stakes_placed(m, m.down)
    &&& forall|k: KeyView| #[trigger] m.claimed.contains_key(k) ==> k.1 < m.info->0.id
}

/// Each stake in `book` is at least `MIN_BET`.
pub open spec fn stakes_consistent(book: Map<KeyView, u128>) -> bool {
    forall|k: KeyView| #[trigger] book.contains_key(k) ==> book[k] >= MIN_BET
}

/// The pool of the side `up` (or else down) of the current round, and of
/// each closed round, is the sum of the stakes in `book` on that round.
pub open spec fn pools_match(m: ContractModel, book: Map<KeyView, u128>, up: bool) -> bool {
    &&& book.dom().finite()
    &&& side_pool(m.current_bet->0, up) == stake_total(book, m.info->0.id)
    &&& forall|i: u64| #[trigger]
        m.bet_info.contains_key(i) ==> closed_pool(m.bet_info[i], up) == stake_total(book, i)
}

/// The state that instantiation starts and every operation keeps: the
/// owner is stored, the rounds are in order, every stake is at least
/// `MIN_BET`, and every pool is the sum of its stakes.
pub open spec fn consistent(m: ContractModel) -> bool {
    &&& m.owner is Some
    &&& rounds_in_order(m)
    &&& stakes_consistent(m.up)
    &&& stakes_consistent(m.down)
    &&& pools_match(m, m.up, true)
    &&& pools_match(m, m.down, false)
}

proof fn lemma_round_keys_finite(book: Map<KeyView, u128>, id: u64)
    requires
        book.dom().finite(),
    ensures
        round_keys(book, id).finite(),
{
    assert(round_keys(book, id).subset_of(book.dom()));
    vstd::set_lib::lemma_set_subset_finite(book.dom(), round_keys(book, id));
}

/// A round without stakes has a total of zero.
proof fn lemma_stake_total_none(book: Map<KeyView, u128>, id: u64)
    requires
        forall|k: KeyView| book.contains_key(k) ==> k.1 != id,
    ensures
        stake_total(book, id) == 0,
{
    assert(round_keys(book, id) =~= Set::<KeyView>::empty());
    lemma_set_sum_empty(stake_fn(book));
}

/// Setting the stake of `k` to `v` changes the total of its round by the
/// difference, and no other round's total.
proof fn lemma_stake_total_insert(book: Map<KeyView, u128>, k: KeyView, v: u128, id: u64)
    requires
        book.dom().finite(),
    ensures
        id == k.1 ==> stake_total(book.insert(k, v), id) == stake_total(book, id) - (if book.contains_key(k) {
            book[k] as int
        } else {
            0
        }) + v,
        id != k.1 ==> stake_total(book.insert(k, v), id) == stake_total(book, id),
{
    let b2 = book.insert(k, v);
    let r = round_keys(book, id);
    let r2 = round_keys(b2, id);
    lemma_round_keys_finite(book, id);
    if id == k.1 {
        if book.contains_key(k) {
            assert(r2 =~= r);
            lemma_set_sum_remove(r, stake_fn(book), k);
            lemma_set_sum_remove(r2, stake_fn(b2), k);
            lemma_set_sum_congruent(r.remove(k), stake_fn(book), stake_fn(b2));
        } else {
            assert(r2 =~= r.insert(k));
            lemma_set_sum_insert(r, stake_fn(b2), k);
            lemma_set_sum_congruent(r, stake_fn(book), stake_fn(b2));
        }
    } else {
        assert(r2 =~= r);
        lemma_set_sum_congruent(r, stake_fn(book), stake_fn(b2));
    }
}

/// Instantiating a contract with empty storage gives a consistent state.
pub proof fn lemma_instantiate_consistent(sender: Seq<char>)
    ensures
        consistent(instantiate_model(empty_model(), sender).0),
{
    let m = instantiate_model(empty_model(), sender).0;
    lemma_stake_total_none(m.up, 0);
    lemma_stake_total_none(m.down, 0);
}

/// Starting a round keeps the state consistent.
proof fn lemma_start_keeps_consistent(m: ContractModel, sender: Seq<char>, now: u64, price: u128)
    requires
        consistent(m),
        start_bet_model(m, sender, now, price) is Ok,
    ensures
        consistent(start_bet_model(m, sender, now, price)->Ok_0.0),
{
    lemma_stake_total_none(m.up, m.info->0.id);
    lemma_stake_total_none(m.down, m.info->0.id);
}

/// Ending a round keeps the state consistent.
proof fn lemma_end_keeps_consistent(m: ContractModel, sender: Seq<char>, now: u64, price: u128)
    requires
        consistent(m),
        !end_bet_panics(m, sender, now),
        end_bet_model(m, sender, now, price) is Ok,
    ensures
        consistent(end_bet_model(m, sender, now, price)->Ok_0.0),
{
    let m2 = end_bet_model(m, sender, now, price)->Ok_0.0;
    let id = m.info->0.id;
    lemma_stake_total_none(m.up, (id + 1) as u64);
    lemma_stake_total_none(m.down, (id + 1) as u64);
    assert(pools_match(m2, m2.up, true));
    assert(pools_match(m2, m2.down, false));
}

/// Betting keeps the state consistent.
proof fn lemma_bet_keeps_consistent(
    m: ContractModel,
    sender: Seq<char>,
    now: u64,
    funds: Seq<Coin>,
    up: bool,
)
    requires
        consistent(m),
        !bet_panics(m, sender, now, funds, up),
        bet_model(m, sender, now, funds, up) is Ok,
    ensures
        consistent(bet_model(m, sender, now, funds, up)->Ok_0.0),
{
    let m2 = bet_model(m, sender, now, funds, up)->Ok_0.0;
    let id = m.info->0.id;
    let k = (sender, id);
    let amount = first_inj(funds)->0;
    let book = side_book(m, up);
    let v = (stake_in(book, k) + amount) as u128;
    assert forall|i: u64| i == id || #[trigger] m.bet_info.contains_key(i) implies stake_total(
        book.insert(k, v),
        i,
    ) == stake_total(book, i) + (if i == id {
        amount as int
    } else {
        0
    }) by {
        lemma_stake_total_insert(book, k, v, i);
    }
    lemma_stake_total_insert(book, k, v, id);
    if up {
        assert(m2.up == book.insert(k, v));
        assert(pools_match(m2, m2.up, true));
        assert(pools_match(m2, m2.down, false));
    } else {
        assert(m2.down == book.insert(k, v));
        assert(pools_match(m2, m2.up, true));
        assert(pools_match(m2, m2.down, false));
    }
}

/// Every operation that succeeds keeps the state consistent.
pub proof fn lemma_execute_keeps_consistent(
    m: ContractModel,
    now: u64,
    info: MessageInfo,
    msg: ExecuteMsg,
)
    requires
        consistent(m),
        !execute_panics(m, now, info, msg),
        execute_model(m, now, info, msg) is Ok,
    ensures
        consistent(execute_model(m, now, info, msg)->Ok_0.0),
{
    match msg {
        ExecuteMsg::Start { price } => lemma_start_keeps_consistent(m, info.sender@, now, price),
        ExecuteMsg::End { price } => lemma_end_keeps_consistent(m, info.sender@, now, price),
        ExecuteMsg::UpBet {  } => lemma_bet_keeps_consistent(
            m,
            info.sender@,
            now,
            info.funds@,
            true,
        ),
        ExecuteMsg::DownBet {  } => lemma_bet_keeps_consistent(
            m,
            info.sender@,
            now,
            info.funds@,
            false,
        ),
        ExecuteMsg::ClaimReward { .. } => {},
    }
}

/// In a consistent state, a stake on the winning side of a closed round is
/// at least `MIN_BET` and no more than that side's pool: working out a
/// reward never divides by zero.
pub proof fn lemma_winning_pool_covers_stake(m: ContractModel, k: KeyView)
    requires
        consistent(m),
        m.bet_info.contains_key(k.1),
        winning_stake(m, k, m.bet_info[k.1]) is Some,
    ensures
        ({
            let (pool, stake) = winning_stake(m, k, m.bet_info[k.1])->0;
            0 < MIN_BET <= stake <= pool
        }),
{
    let b = m.bet_info[k.1];
    let book = if b.startPrice <= b.endPrice {
        m.up
    } else {
        m.down
    };
    lemma_round_keys_finite(book, k.1);
    lemma_set_sum_term_le(round_keys(book, k.1), stake_fn(book), k);
}

proof fn lemma_payout_within_prize(prize: u128, pool: u128, stake: u128)
    requires
        stake <= pool,
    ensures
        0 <= payout(prize, pool, stake) <= prize,
{
    let s = REWARD_SCALE as int;
    let p = prize as int;
    let q = (p * s) / (pool as int);
    if stake == 0 {
        assert(q * 0 == 0);
        return;
    }
    assert(q * (pool as int) <= p * s) by (nonlinear_arith)
        requires
            q == (p * s) / (pool as int),
            pool > 0,
            p >= 0,
            s > 0,
    ;
    assert(0 <= q * (stake as int) <= q * (pool as int)) by (nonlinear_arith)
        requires
            q >= 0,
            0 < stake <= pool,
    ;
    assert(0 <= (q * (stake as int)) / s <= (p * s) / s) by (nonlinear_arith)
        requires
            0 <= q * (stake as int) <= p * s,
            s > 0,
    ;
    assert((p * s) / s == p) by (nonlinear_arith)
        requires
            s > 0,
    ;
}

/// In a consistent state, what an address is owed for a round is no more
/// than the round's prize.
pub proof fn lemma_reward_within_prize(m: ContractModel, k: KeyView)
    requires
        consistent(m),
        m.bet_info.contains_key(k.1),
    ensures
        0 <= user_reward(m, k) <= m.bet_info[k.1].totalPrize,
{
    if !is_claimed(m, k) {
        let b = m.bet_info[k.1];
        if winning_stake(m, k, b) is Some {
            let (pool, stake) = winning_stake(m, k, b)->0;
            lemma_winning_pool_covers_stake(m, k);
            lemma_payout_within_prize(b.totalPrize, pool, stake);
        }
    }
}

/// A successful claim of a closed round pays what the address is owed, and
/// a second claim of the same round by the same address is refused, the
/// address being owed nothing more.
pub proof fn lemma_claim_once(m: ContractModel, sender: Seq<char>, bet_id: u64)
    requires
        claim_model(m, sender, bet_id) is Ok,
        m.bet_info.contains_key(bet_id),
    ensures
        claim_model(m, sender, bet_id)->Ok_0.1.messages == seq![
            send_inj(sender, user_reward(m, (sender, bet_id)) as u128),
        ],
        claim_model(claim_model(m, sender, bet_id)->Ok_0.0, sender, bet_id) == Err::<
            (ContractModel, ResponseView),
            ContractError,
        >(ContractError::Claimed {  }),
        user_reward(claim_model(m, sender, bet_id)->Ok_0.0, (sender, bet_id)) == 0,
{
}

/// Closing a round splits its pools between the prize (99 percent, rounded
/// down) and the owner's fee.
pub proof fn lemma_end_bet_splits_pools(m: ContractModel, sender: Seq<char>, now: u64, price: u128)
    requires
        end_bet_model(m, sender, now, price) is Ok,
        !end_bet_panics(m, sender, now),
    ensures
        ({
            let bet = m.current_bet->0;
            let total = bet.totalUp + bet.totalDown;
            let closed = end_bet_model(m, sender, now, price)->Ok_0.0.bet_info[m.info->0.id];
            let fee_msg = end_bet_model(m, sender, now, price)->Ok_0.1.messages[0];
            &&& closed.totalPrize == prize_of(total)
            &&& closed.totalPrize * 100 <= total * 99 < closed.totalPrize * 100 + 100
            &&& fee_msg == send_inj(m.owner->0, (total - closed.totalPrize) as u128)
        }),
{
}

/// The winners' stakes and pool of closed round `id`: the up side where the
/// price did not fall, the down side otherwise.
pub open spec fn winners(m: ContractModel, id: u64) -> (Map<KeyView, u128>, u128) {
    let b = m.bet_info[id];
    if b.startPrice <= b.endPrice {
        (m.up, b.upBet)
    } else {
        (m.down, b.downBet)
    }
}

/// The payout of a key's stake in `book`.
pub open spec fn payout_fn(prize: u128, pool: u128, book: Map<KeyView, u128>) -> spec_fn(
    KeyView,
) -> int {
    |k: KeyView| payout(prize, pool, book[k])
}

/// The sum of the payouts of all the winners of closed round `id`.
pub open spec fn round_payouts(m: ContractModel, id: u64) -> int {
    let (book, pool) = winners(m, id);
    set_sum(round_keys(book, id), payout_fn(m.bet_info[id].totalPrize, pool, book))
}

proof fn lemma_scaled_payout_le(prize: u128, pool: u128, stake: u128)
    requires
        pool > 0,
    ensures
        (REWARD_SCALE as int) * payout(prize, pool, stake) <= ((prize * REWARD_SCALE) / (
        pool as int)) * stake,
        payout(prize, pool, stake) >= 0,
{
    let s = REWARD_SCALE as int;
    let x = ((prize * REWARD_SCALE) / (pool as int)) * stake;
    assert(x >= 0) by (nonlinear_arith)
        requires
            pool > 0,
            x == ((prize * REWARD_SCALE) / (pool as int)) * stake,
    ;
    assert(s * (x / s) <= x) by (nonlinear_arith)
        requires
            s > 0,
            x >= 0,
    ;
}

/// Where the winning pool of a closed round is the sum of the winners'
/// stakes, the payouts of all the winners add up to no more than the
/// round's prize.
pub proof fn lemma_payouts_within_prize(m: ContractModel, id: u64)
    requires
        m.bet_info.contains_key(id),
        winners(m, id).0.dom().finite(),
        winners(m, id).1 == stake_total(winners(m, id).0, id),
    ensures
        0 <= round_payouts(m, id) <= m.bet_info[id].totalPrize,
{
    let (book, pool) = winners(m, id);
    let prize = m.bet_info[id].totalPrize;
    let r = round_keys(book, id);
    let f = payout_fn(prize, pool, book);
    lemma_round_keys_finite(book, id);
    if r.len() == 0 {
        assert(round_payouts(m, id) == 0);
    } else if pool == 0 {
        assert forall|k: KeyView| r.contains(k) implies f(k) == 0int by {
            lemma_set_sum_term_le(r, stake_fn(book), k);
            lemma_payout_within_prize(prize, pool, book[k]);
        }
        lemma_set_sum_congruent(r, f, |k: KeyView| 0int);
        lemma_set_sum_zero(r);
    } else {
        let s = REWARD_SCALE as int;
        let q = (prize * REWARD_SCALE) / (pool as int);
        assert(q >= 0) by (nonlinear_arith)
            requires
                pool > 0,
                q == (prize * REWARD_SCALE) / (pool as int),
        ;
        let g1 = |k: KeyView| s * f(k);
        let g2 = |k: KeyView| q * stake_fn(book)(k);
        assert forall|k: KeyView| r.contains(k) implies g1(k) <= g2(k) && f(k) >= 0 by {
            lemma_scaled_payout_le(prize, pool, book[k]);
        }
        lemma_set_sum_nonneg(r, f);
        lemma_set_sum_scale(r, f, g1, s);
        lemma_set_sum_le(r, g1, g2);
        lemma_set_sum_scale(r, stake_fn(book), g2, q);
        let total = set_sum(r, f);
        assert(q * (pool as int) <= prize * s) by (nonlinear_arith)
            requires
                q == (prize * REWARD_SCALE) / (pool as int),
                s == REWARD_SCALE,
                pool > 0,
        ;
        assert(0 <= total <= prize) by (nonlinear_arith)
            requires
                s * total <= q * (pool as int),
                q * (pool as int) <= prize * s,
                s > 0,
                total >= 0,
        ;
    }
}

/// The state after `execute` with `msg`: the new state where it succeeds,
/// the same state where it fails.
pub open spec fn state_after(m: ContractModel, now: u64, info: MessageInfo, msg: ExecuteMsg) -> ContractModel {
    match execute_model(m, now, info, msg) {
        Ok((m2, _)) => m2,
        Err(_) => m,
    }
}

/// One call of `execute`: the block's time, the caller and the message.
pub struct Call {
    pub now: u64,
    pub info: MessageInfo,
    pub msg: ExecuteMsg,
}

/// The state after the calls `calls`, in order, from `m`.
pub open spec fn run(m: ContractModel, calls: Seq<Call>) -> ContractModel
    decreases calls.len(),
{
    if calls.len() == 0 {
        m
    } else {
        let c = calls.last();
        state_after(run(m, calls.drop_last()), c.now, c.info, c.msg)
    }
}

/// None of the calls `calls`, in order from `m`, meets an input that its
/// contract leaves out.
pub open spec fn runs_without_panic(m: ContractModel, calls: Seq<Call>) -> bool
    decreases calls.len(),
{
    calls.len() == 0 || ({
        let c = calls.last();
        runs_without_panic(m, calls.drop_last()) && !execute_panics(
            run(m, calls.drop_last()),
            c.now,
            c.info,
            c.msg,
        )
    })
}

/// Every call of `execute`, failing or not, keeps the rounds in order.
pub proof fn lemma_execute_keeps_rounds_in_order(
    m: ContractModel,
    now: u64,
    info: MessageInfo,
    msg: ExecuteMsg,
)
    requires
        rounds_in_order(m),
        !execute_panics(m, now, info, msg),
    ensures
        rounds_in_order(state_after(m, now, info, msg)),
{
    let m2 = state_after(m, now, info, msg);
    assert(stakes_placed(m2, m2.up));
    assert(stakes_placed(m2, m2.down));
}

/// A call of `execute` never changes the owner; it keeps a stored round
/// stored and never lowers its id; and where no round is stored it changes
/// no closed round.
pub proof fn lemma_execute_keeps_owner_and_round(
    m: ContractModel,
    now: u64,
    info: MessageInfo,
    msg: ExecuteMsg,
)
    requires
        !execute_panics(m, now, info, msg),
    ensures
        state_after(m, now, info, msg).owner == m.owner,
        m.info is Some ==> state_after(m, now, info, msg).info is Some && state_after(
            m,
            now,
            info,
            msg,
        ).info->0.id >= m.info->0.id,
        m.info is None ==> state_after(m, now, info, msg).info is None && state_after(
            m,
            now,
            info,
            msg,
        ).bet_info == m.bet_info,
{
}

/// Any sequence of calls that meets no input left out keeps the rounds in
/// order.
pub proof fn lemma_run_keeps_rounds_in_order(m: ContractModel, calls: Seq<Call>)
    requires
        rounds_in_order(m),
        runs_without_panic(m, calls),
    ensures
        rounds_in_order(run(m, calls)),
    decreases calls.len(),
{
    if calls.len() > 0 {
        let c = calls.last();
        lemma_run_keeps_rounds_in_order(m, calls.drop_last());
        lemma_execute_keeps_rounds_in_order(run(m, calls.drop_last()), c.now, c.info, c.msg);
    }
}

/// Any sequence of calls that meets no input left out keeps the state
/// consistent.
pub proof fn lemma_run_keeps_consistent(m: ContractModel, calls: Seq<Call>)
    requires
        consistent(m),
        runs_without_panic(m, calls),
    ensures
        consistent(run(m, calls)),
    decreases calls.len(),
{
    if calls.len() > 0 {
        let c = calls.last();
        let before = run(m, calls.drop_last());
        lemma_run_keeps_consistent(m, calls.drop_last());
        if execute_model(before, c.now, c.info, c.msg) is Ok {
            lemma_execute_keeps_consistent(before, c.now, c.info, c.msg);
        }
    }
}

/// A claim record, once made, survives every later call.
pub proof fn lemma_claim_record_kept(m: ContractModel, calls: Seq<Call>, k: KeyView)
    requires
        is_claimed(m, k),
    ensures
        is_claimed(run(m, calls), k),
    decreases calls.len(),
{
    if calls.len() > 0 {
        lemma_claim_record_kept(m, calls.drop_last(), k);
    }
}

/// After a successful claim of a closed round, whatever calls follow, a
/// new claim of that round by the same address is refused: an address is
/// paid for a round at most once.
pub proof fn lemma_claimed_refused_after(
    m: ContractModel,
    sender: Seq<char>,
    bet_id: u64,
    calls: Seq<Call>,
)
    requires
        claim_model(m, sender, bet_id) is Ok,
        m.bet_info.contains_key(bet_id),
    ensures
        claim_model(run(claim_model(m, sender, bet_id)->Ok_0.0, calls), sender, bet_id) == Err::<
            (ContractModel, ResponseView),
            ContractError,
        >(ContractError::Claimed {  }),
{
    lemma_claim_record_kept(claim_model(m, sender, bet_id)->Ok_0.0, calls, (sender, bet_id));
}

/// Whatever calls follow that meet no input left out, the record of a
/// round closed before the current one (or of any round, where no round is
/// stored) never changes.
pub proof fn lemma_run_keeps_closed_rounds(m: ContractModel, calls: Seq<Call>, id: u64)
    requires
        runs_without_panic(m, calls),
        m.bet_info.contains_key(id),
        m.info is None || id < m.info->0.id,
    ensures
        run(m, calls).bet_info.contains_key(id),
        run(m, calls).bet_info[id] == m.bet_info[id],
        m.info is None ==> run(m, calls).info is None,
        m.info is Some ==> run(m, calls).info is Some && run(m, calls).info->0.id >= m.info->0.id,
    decreases calls.len(),
{
    if calls.len() > 0 {
        let c = calls.last();
        lemma_run_keeps_closed_rounds(m, calls.drop_last(), id);
        lemma_execute_keeps_owner_and_round(run(m, calls.drop_last()), c.now, c.info, c.msg);
    }
}

/// Once the round with id `k` is closed at `price`, its record answers
/// with its pools, its prize and its prices, and keeps answering so
/// whatever calls follow that meet no input left out.
pub proof fn lemma_closed_round_answer(
    m: ContractModel,
    sender: Seq<char>,
    now: u64,
    price: u128,
    calls: Seq<Call>,
)
    requires
        end_bet_model(m, sender, now, price) is Ok,
        !end_bet_panics(m, sender, now),
        runs_without_panic(end_bet_model(m, sender, now, price)->Ok_0.0, calls),
    ensures
        ({
            let c = m.current_bet->0;
            bet_info_model(run(end_bet_model(m, sender, now, price)->Ok_0.0, calls), m.info->0.id)
                == BetInfo {
                upBet: c.totalUp,
                downBet: c.totalDown,
                totalPrize: ((c.totalUp + c.totalDown) * 99 / 100) as u128,
                startPrice: c.startPrice,
                endPrice: price,
            }
        }),
{
    lemma_run_keeps_closed_rounds(end_bet_model(m, sender, now, price)->Ok_0.0, calls, m.info->0.id);
}

/// `m1` and `m2` agree on what a claim by `k.0` of round `k.1` reads: the
/// round's record and the address's stakes and claim record for it.
pub open spec fn claim_entries_agree(m1: ContractModel, m2: ContractModel, k: KeyView) -> bool {
    &&& m1.bet_info.contains_key(k.1) == m2.bet_info.contains_key(k.1)
    &&& m1.bet_info.contains_key(k.1) ==> m1.bet_info[k.1] == m2.bet_info[k.1]
    &&& m1.up.contains_key(k) == m2.up.contains_key(k)
    &&& m1.up.contains_key(k) ==> m1.up[k] == m2.up[k]
    &&& m1.down.contains_key(k) == m2.down.contains_key(k)
    &&& m1.down.contains_key(k) ==> m1.down[k] == m2.down[k]
    &&& m1.claimed.contains_key(k) == m2.claimed.contains_key(k)
    &&& m1.claimed.contains_key(k) ==> m1.claimed[k] == m2.claimed[k]
}

/// A claim depends only on the round's record and the claimant's own
/// entries: on two states that agree on them it fails or not alike, with
/// the same error or the same answer, and leaves the same claim record;
/// besides that record it changes nothing.
pub proof fn lemma_claim_depends_on_own_entries(
    m1: ContractModel,
    m2: ContractModel,
    sender: Seq<char>,
    bet_id: u64,
)
    requires
        claim_entries_agree(m1, m2, (sender, bet_id)),
    ensures
        reward_panics(m1, (sender, bet_id)) == reward_panics(m2, (sender, bet_id)),
        user_reward(m1, (sender, bet_id)) == user_reward(m2, (sender, bet_id)),
        claim_model(m1, sender, bet_id) is Ok == claim_model(m2, sender, bet_id) is Ok,
        claim_model(m1, sender, bet_id) is Err ==> claim_model(m1, sender, bet_id)
            == claim_model(m2, sender, bet_id),
        claim_model(m1, sender, bet_id) is Ok ==> {
            let (n1, r1) = claim_model(m1, sender, bet_id)->Ok_0;
            let (n2, r2) = claim_model(m2, sender, bet_id)->Ok_0;
            &&& r1 == r2
            &&& claim_entries_agree(n1, n2, (sender, bet_id))
            &&& n1 == ContractModel { claimed: n1.claimed, ..m1 }
            &&& forall|k: KeyView|
                k != (sender, bet_id) ==> n1.claimed.contains_key(k) == m1.claimed.contains_key(k)
                    && (m1.claimed.contains_key(k) ==> #[trigger] n1.claimed[k] == m1.claimed[k])
        },
{
}

/// Closing a round leaves the stakes as they were and carries each pool
/// into the round's record: where the pools were the sums of the round's
/// stakes, so are the recorded pools, and the prize is no more than their
/// total.
pub proof fn lemma_end_records_pools(m: ContractModel, sender: Seq<char>, now: u64, price: u128)
    requires
        end_bet_model(m, sender, now, price) is Ok,
        !end_bet_panics(m, sender, now),
    ensures
        ({
            let n = end_bet_model(m, sender, now, price)->Ok_0.0;
            let id = m.info->0.id;
            let b = n.bet_info[id];
            &&& n.up == m.up
            &&& n.down == m.down
            &&& n.bet_info.contains_key(id)
            &&& b.upBet == m.current_bet->0.totalUp
            &&& b.downBet == m.current_bet->0.totalDown
            &&& m.current_bet->0.totalUp == stake_total(m.up, id) ==> b.upBet == stake_total(n.up, id)
            &&& m.current_bet->0.totalDown == stake_total(m.down, id) ==> b.downBet == stake_total(
                n.down,
                id,
            )
            &&& b.totalPrize <= b.upBet + b.downBet
        }),
{
}

/// Bets do not move the end time: after the owner starts a round at `t0`
/// and any calls that are all bets follow, closing the round at `t` is
/// refused before `t0 + ROUND_SECONDS` and succeeds from then on, leaving
/// the next round pending.
pub proof fn lemma_round_closes_at_end_time(
    m: ContractModel,
    owner: Seq<char>,
    t0: u64,
    start_price: u128,
    bets: Seq<Call>,
    t: u64,
    end_price: u128,
)
    requires
        start_bet_model(m, owner, t0, start_price) is Ok,
        !start_bet_panics(m, owner, t0),
        forall|i: int|
            0 <= i < bets.len() ==> (#[trigger] bets[i]).msg is UpBet || bets[i].msg is DownBet,
    ensures
        ({
            let m1 = run(start_bet_model(m, owner, t0, start_price)->Ok_0.0, bets);
            &&& t < t0 + ROUND_SECONDS ==> end_bet_model(m1, owner, t, end_price) == Err::<
                (ContractModel, ResponseView),
                ContractError,
            >(ContractError::BetIDNotEnd {  })
            &&& t >= t0 + ROUND_SECONDS ==> end_bet_model(m1, owner, t, end_price) is Ok
                && end_bet_model(m1, owner, t, end_price)->Ok_0.0.info->0.status == 0
        }),
{
    lemma_bets_keep_round(start_bet_model(m, owner, t0, start_price)->Ok_0.0, bets);
}

/// Calls that are all bets keep the owner, the round and its end time.
proof fn lemma_bets_keep_round(m: ContractModel, bets: Seq<Call>)
    requires
        forall|i: int|
            0 <= i < bets.len() ==> (#[trigger] bets[i]).msg is UpBet || bets[i].msg is DownBet,
    ensures
        run(m, bets).owner == m.owner,
        run(m, bets).info == m.info,
        m.current_bet is Some ==> run(m, bets).current_bet is Some && run(
            m,
            bets,
        ).current_bet->0.endTime == m.current_bet->0.endTime,
    decreases bets.len(),
{
    if bets.len() > 0 {
        let c = bets.last();
        assert(c == bets[bets.len() - 1]);
        lemma_bets_keep_round(m, bets.drop_last());
    }
}

/// A bet, succeeding or not, keeps the round's id and keeps each pool of
/// the current round equal to the sum of its stakes on both sides; where
/// it succeeds, the pool and the sum of its side both grow by exactly the
/// amount staked.
pub proof fn lemma_bet_keeps_pools(
    m: ContractModel,
    sender: Seq<char>,
    now: u64,
    funds: Seq<Coin>,
    up: bool,
)
    requires
        m.info is Some,
        m.current_bet is Some,
        m.up.dom().finite(),
        m.down.dom().finite(),
        m.current_bet->0.totalUp == stake_total(m.up, m.info->0.id),
        m.current_bet->0.totalDown == stake_total(m.down, m.info->0.id),
        !bet_panics(m, sender, now, funds, up),
    ensures
        ({
            let n = match bet_model(m, sender, now, funds, up) {
                Ok((n, _)) => n,
                Err(_) => m,
            };
            let id = m.info->0.id;
            &&& n.info == m.info
            &&& n.up.dom().finite() && n.down.dom().finite()
            &&& n.current_bet->0.totalUp == stake_total(n.up, id)
            &&& n.current_bet->0.totalDown == stake_total(n.down, id)
            &&& bet_model(m, sender, now, funds, up) is Ok ==> {
                let amount = first_inj(funds)->0;
                &&& side_pool(n.current_bet->0, up) == side_pool(m.current_bet->0, up) + amount
                &&& stake_total(side_book(n, up), id) == stake_total(side_book(m, up), id) + amount
                &&& side_pool(n.current_bet->0, !up) == side_pool(m.current_bet->0, !up)
                &&& side_book(n, !up) == side_book(m, !up)
            }
        }),
{
    if bet_model(m, sender, now, funds, up) is Ok {
        let id = m.info->0.id;
        let k = (sender, id);
        let amount = first_inj(funds)->0;
        let book = side_book(m, up);
        let v = (stake_in(book, k) + amount) as u128;
        lemma_stake_total_insert(book, k, v, id);
    }
}

/// The amount that a claim's answer sends.
pub open spec fn claim_paid(r: ResponseView) -> int {
    match r.messages[0] {
        BankMsgView::Send { amount, .. } => amount[0].1 as int,
    }
}

/// The state after claims of round `bet_id` by `senders`, in order, from
/// `m`, and the total that the successful ones sent.
pub open spec fn run_claims(m: ContractModel, senders: Seq<Seq<char>>, bet_id: u64) -> (
    ContractModel,
    int,
)
    decreases senders.len(),
{
    if senders.len() == 0 {
        (m, 0)
    } else {
        let (n, paid) = run_claims(m, senders.drop_last(), bet_id);
        match claim_model(n, senders.last(), bet_id) {
            Ok((n2, r)) => (n2, paid + claim_paid(r)),
            Err(_) => (n, paid),
        }
    }
}

/// The winners of round `id` in `m` who have not claimed in `n`.
pub open spec fn unclaimed_winners(m: ContractModel, n: ContractModel, id: u64) -> Set<KeyView> {
    round_keys(winners(m, id).0, id).filter(|k: KeyView| !is_claimed(n, k))
}

proof fn lemma_run_claims_accounting(m: ContractModel, senders: Seq<Seq<char>>, id: u64)
    requires
        m.bet_info.contains_key(id),
        winners(m, id).0.dom().finite(),
        winners(m, id).1 == stake_total(winners(m, id).0, id),
    ensures
        ({
            let (n, paid) = run_claims(m, senders, id);
            let f = payout_fn(m.bet_info[id].totalPrize, winners(m, id).1, winners(m, id).0);
            &&& n.bet_info == m.bet_info
            &&& n.up == m.up
            &&& n.down == m.down
            &&& unclaimed_winners(m, n, id).finite()
            &&& paid >= 0
            &&& paid + set_sum(unclaimed_winners(m, n, id), f) == set_sum(
                unclaimed_winners(m, m, id),
                f,
            )
        }),
    decreases senders.len(),
{
    let (book, pool) = winners(m, id);
    let prize = m.bet_info[id].totalPrize;
    let f = payout_fn(prize, pool, book);
    let w = round_keys(book, id);
    lemma_round_keys_finite(book, id);
    assert(unclaimed_winners(m, m, id).subset_of(w));
    vstd::set_lib::lemma_set_subset_finite(w, unclaimed_winners(m, m, id));
    if senders.len() > 0 {
        lemma_run_claims_accounting(m, senders.drop_last(), id);
        let (n1, paid1) = run_claims(m, senders.drop_last(), id);
        let s = senders.last();
        let key = (s, id);
        if claim_model(n1, s, id) is Ok {
            let n2 = claim_model(n1, s, id)->Ok_0.0;
            let u1 = unclaimed_winners(m, n1, id);
            let u2 = unclaimed_winners(m, n2, id);
            assert(u2.subset_of(w));
            vstd::set_lib::lemma_set_subset_finite(w, u2);
            if book.contains_key(key) {
                lemma_set_sum_term_le(w, stake_fn(book), key);
                lemma_payout_within_prize(prize, pool, book[key]);
                assert(user_reward(n1, key) == f(key));
                assert(u2 =~= u1.remove(key));
                lemma_set_sum_remove(u1, f, key);
            } else {
                assert(user_reward(n1, key) == 0);
                assert(u2 =~= u1);
            }
        }
    }
}

/// Where the winning pool of a closed round is the sum of the winners'
/// stakes, any sequence of claims of that round, by any addresses, sends
/// in all no more than the round's prize.
pub proof fn lemma_claims_within_prize(m: ContractModel, senders: Seq<Seq<char>>, id: u64)
    requires
        m.bet_info.contains_key(id),
        winners(m, id).0.dom().finite(),
        winners(m, id).1 == stake_total(winners(m, id).0, id),
    ensures
        0 <= run_claims(m, senders, id).1 <= m.bet_info[id].totalPrize,
{
    let (book, pool) = winners(m, id);
    let prize = m.bet_info[id].totalPrize;
    let f = payout_fn(prize, pool, book);
    let w = round_keys(book, id);
    let n = run_claims(m, senders, id).0;
    lemma_run_claims_accounting(m, senders, id);
    lemma_round_keys_finite(book, id);
    assert forall|k: KeyView| w.contains(k) implies f(k) >= 0 by {
        lemma_set_sum_term_le(w, stake_fn(book), k);
        lemma_payout_within_prize(prize, pool, book[k]);
    }
    assert(unclaimed_winners(m, m, id).subset_of(w));
    assert(unclaimed_winners(m, n, id).subset_of(w));
    lemma_set_sum_subset(w, unclaimed_winners(m, m, id), f);
    lemma_set_sum_subset(w, unclaimed_winners(m, n, id), f);
    vstd::set_lib::lemma_set_subset_finite(w, unclaimed_winners(m, n, id));
    lemma_set_sum_nonneg(unclaimed_winners(m, n, id), f);
    lemma_set_sum_nonneg(unclaimed_winners(m, m, id), f);
    lemma_payouts_within_prize(m, id);
    assert(round_payouts(m, id) == set_sum(w, f));
}

} // verus!
