# ecity_test

The minting rules of the ECITY token, with their proofs.

- `src/model.rs`: the contract's storage as mathematical values
  (`MinterState`), what each endpoint does to it (`step`), and runs of calls.
- `src/minter.rs`: the contract (`EcityTest`, implemented by `Minter`): each
  endpoint refuses a call without changing anything, or updates the storage and
  returns the order (a mint, or a token issue) that the chain is to carry out.
- `src/schedule.rs`: episodes of two weeks, years of 26 episodes, amounts.
- `src/laws.rs`: properties of the contract over all inputs and runs.
- `app/`: the contract on the chain, with `elrond-wasm`: storage, block data
  and token operations; it asks the library for every decision.
