# pallet_evm

An EVM execution module for a blockchain, verified with Verus.

The module keeps the accounts, codes and storages of an Ethereum-compatible virtual machine, runs
call and create transactions on them through the `evm` crate, and moves balance between them and
the currency of the chain that it is part of.

- `src/` is the verified library. `primitives` and `storage` hold words and maps, `state` the store
  and the changes to it, `supply` the balances taken together, `hashing` and `account_id` the
  addresses of accounts, `config` and `executor` the virtual machine of the `evm` crate,
  `execution` a single transaction, `module` the requests and events, and `laws` what holds of the
  module as a whole.
- `tests/` runs the library on concrete values.
- `app/` makes a FRAME module of the library: storage of the chain, currency, events and dispatch.

What is trusted is the behaviour of the outside crates. It is stated on the functions marked
`external_body`, each of which names the outside function that it calls, and in the specification
of `ExitReason::is_succeed`. What takes too long to state is named by a spec function without a
body. Beyond that, the types that a chain implements the traits of the library for (`Trait`, `Get`,
`FeeCalculator`, `ConvertAccountId`, `Precompiles` and the traits of account ids and hashes) are
taken to keep the contracts of those traits.
