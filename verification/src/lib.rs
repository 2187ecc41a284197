//! An up/down price-prediction game for a blockchain smart-contract runtime.
//!
//! The owner opens a round at a start price; bettors stake "inj" coins on the
//! price going up or down before the round's end time; the owner closes the
//! round at an end price, taking a one percent fee; the winning side then
//! claims its share of the prize pool in proportion to its stake.
//!
//! The library holds the contract's state as plain values and implements
//! every operation of the contract over it, with contracts over a
//! mathematical model of that state.

pub mod chain;
pub mod contract;
pub mod decimal;
pub mod error;
pub mod laws;
pub mod model;
pub mod msg;
pub mod outcomes;
pub mod state;
pub mod sums;
pub mod table;
