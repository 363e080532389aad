# Morpho V2 reallocator

Planning engine of a bot that moves the direct positions of Morpho Vault V2 vaults between markets.

`src/` is the library. Every function in it is verified with Verus:

- `primitives`, `collections`, `domain`: fixed-width words, ordered maps and sets, shared types.
- `morpho`, `state`: exact accrual, interest-rate curve, adapter and cap arithmetic.
- `planner`: sequential simulator, candidate lattices, bounded searches, episodes, scheduling.
- `config`: the rules that a configuration must meet, and its canonical form.
- `chain`: provider rules, canonical receipts and logs, head polling, reorganizations, aggregates.
- `contracts`, `protocol_lock`: write allowlist and runtime-code identity.
- `api`: artifacts and transactions that the operator API shows.
- `endpoint`, `startup`: decisions of process startup and supervision.

Integer arithmetic, hashing, ABI coding, URL parsing and the clock come from the `alloy`, `url` and
`time` crates through small trusted wrappers, each with its contract beside it.

`app/` is the process around the library: command line, configuration files, HTTP and JSON-RPC.
`tests/` exercises the library from outside.
