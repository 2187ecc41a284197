# updown_bet

An up/down price-prediction game for a CosmWasm chain, as a Verus-verified
library with thin entry points around it.

- `src/` — the verified library.
  - `state.rs`: the stored state (`ContractState`) and its model (`ContractModel`).
  - `model.rs`: what each operation does, as spec functions over the model.
  - `contract.rs`: the operations (`instantiate`, `execute_*`, `query_*`), each
    proved to do what `model.rs` says; failures leave the state unchanged.
  - `laws.rs`: the invariants that instantiation establishes and every
    call keeps (rounds in order; pools are the sums of their stakes), claim
    records and closed rounds that survive any later calls, one claim per
    round and address, and all claims of a round staying within its prize.
  - `table.rs`, `sums.rs`, `decimal.rs`, `chain.rs`, `msg.rs`, `error.rs`:
    keyed tables, finite sums, decimal text, the chain's values, messages
    and errors.
- `app/` — the chain's entry points: they load the storage into a
  `ContractState`, run the library, save the state back and convert the
  answer to CosmWasm types.
- `tests/` — tests of the library on concrete values.
