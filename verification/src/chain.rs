//! What the chain hands to the contract (the block, the sender and the coins
//! sent along) and what the contract hands back (bank transfers and
//! attributes).

use vstd::prelude::*;

verus! {

/// The environment of a call: the block's time.
#[derive(Clone, Copy, Debug, PartialEq, Eq, Structural)]
pub struct Env {
    /// The block's time, in seconds.
    pub block_time: u64,
}

/// An amount of one denomination of coin.
pub struct Coin {
    pub denom: String,
    pub amount: u128,
}

impl View for Coin {
    type V = (Seq<char>, u128);

    open spec fn view(&self) -> (Seq<char>, u128) {
        (self.denom@, self.amount)
    }
}

impl Coin {
    /// `amount` of `denom`.
    pub fn new(amount: u128, denom: &str) -> (c: Self)
        ensures
            c@ == (denom@, amount),
    {
        Coin { denom: denom.to_owned(), amount }
    }
}

/// The coins of a call or a transfer, as the model holds them.
pub open spec fn coins_view(coins: Seq<Coin>) -> Seq<(Seq<char>, u128)> {
    coins.map_values(|c: Coin| c@)
}

/// A single coin of `amount` of `denom`, as a transfer carries it.
pub fn coins(amount: u128, denom: &str) -> (v: Vec<Coin>)
    ensures
        coins_view(v@) == seq![(denom@, amount)],
{
    let mut v: Vec<Coin> = Vec::new();
    v.push(Coin::new(amount, denom));
    assert(coins_view(v@) =~= seq![(denom@, amount)]);
    v
}

/// Who calls, and the coins sent along.
pub struct MessageInfo {
    pub sender: String,
    pub funds: Vec<Coin>,
}

/// A transfer that the contract asks the bank to make.
pub enum BankMsg {
    Send { to_address: String, amount: Vec<Coin> },
}

/// A bank transfer as the model holds it.
pub enum BankMsgView {
    Send { to_address: Seq<char>, amount: Seq<(Seq<char>, u128)> },
}

impl View for BankMsg {
    type V = BankMsgView;

    open spec fn view(&self) -> BankMsgView {
        match self {
            BankMsg::Send { to_address, amount } => BankMsgView::Send {
                to_address: to_address@,
                amount: coins_view(amount@),
            },
        }
    }
}

/// A key and a value that the contract reports.
pub struct Attribute {
    pub key: String,
    pub value: String,
}

impl View for Attribute {
    type V = (Seq<char>, Seq<char>);

    open spec fn view(&self) -> (Seq<char>, Seq<char>) {
        (self.key@, self.value@)
    }
}

/// The answer of a successful operation: the transfers to make and the
/// attributes to report, in order.
pub struct Response {
    pub messages: Vec<BankMsg>,
    pub attributes: Vec<Attribute>,
}

/// An answer as the model holds it.
pub struct ResponseView {
    pub messages: Seq<BankMsgView>,
    pub attributes: Seq<(Seq<char>, Seq<char>)>,
}

impl View for Response {
    type V = ResponseView;

    open spec fn view(&self) -> ResponseView {
        ResponseView {
            messages: self.messages@.map_values(|m: BankMsg| m@),
            attributes: self.attributes@.map_values(|a: Attribute| a@),
        }
    }
}

impl Response {
    /// An answer with no transfers and no attributes.
    pub fn new() -> (r: Self)
        ensures
            r@.messages == Seq::<BankMsgView>::empty(),
            r@.attributes == Seq::<(Seq<char>, Seq<char>)>::empty(),
    {
        let r = Response { messages: Vec::new(), attributes: Vec::new() };
        assert(r@.messages =~= Seq::<BankMsgView>::empty());
        assert(r@.attributes =~= Seq::<(Seq<char>, Seq<char>)>::empty());
        r
    }

    /// The answer with the attribute `key`: `value` added at the end.
    pub fn add_attribute(self, key: &str, value: String) -> (r: Self)
        ensures
            r@.messages == self@.messages,
            r@.attributes == self@.attributes.push((key@, value@)),
    {
        let mut r = self;
        let ghost before = r@;
        r.attributes.push(Attribute { key: key.to_owned(), value });
        assert(r@.attributes =~= before.attributes.push((key@, value@)));
        assert(r@.messages =~= before.messages);
        r
    }

    /// The answer with the transfer `msg` added at the end.
    pub fn add_message(self, msg: BankMsg) -> (r: Self)
        ensures
            r@.messages == self@.messages.push(msg@),
            r@.attributes == self@.attributes,
    {
        let mut r = self;
        let ghost before = r@;
        let ghost mv = msg@;
        r.messages.push(msg);
        assert(r@.messages =~= before.messages.push(mv));
        assert(r@.attributes =~= before.attributes);
        r
    }
}

} // verus!
