# tos_tck

Verified models of the TOS blockchain's test-kit: the BlockDAG algorithms
(height, cumulative difficulty, fork choice, block ordering and the
Kalman-filter difficulty adjustment) and the logic of its example contracts
(tokens, stablecoins, DeFi pools, governance, multisig, access control,
guards, proxies, schedulers and host-call tests), each with its contract
proved by Verus.

## Layout

- `src/` — the library. Every contract works on `storage::Storage`, a
  key-value store whose view is a map of byte strings; what a contract
  asks of its host (caller, time, call value, the answers of host calls)
  is passed in as arguments, and what it hands the host (a payment, a
  delegated call, an offer to schedule, the next host call to make) comes
  back in its result.  Events come back where their layout is the
  contract's own (the factory, the host-call tests) and, as values, from
  the DeFi contracts' `execute` functions.
  - `bytes`, `cells`, `text`, `storage`: encodings and the store.
  - `blockdag`, `difficulty`: the DAG algorithms; 256-bit arithmetic
    goes through `primitive-types`.
  - one module per contract; `deployment_service` is the factory's
    off-chain deployer (SHA-256 through `sha2`, hex through `hex`).
- `tests/` — tests on concrete values, run against the compiled library.
- `app/` — the programs: the YAML test-vector generators and the
  deployment service (`tos_tck <height|cumulative-diff|difficulty|fork-choice|sorting|service>`).

Laws that span several calls are public proof functions named `law_*`
in the module they concern.
