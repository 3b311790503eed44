# bllvm-commons governance core

The decision logic of the Bitcoin Commons governance bot, written in Verus:
every function in `src/` carries a contract that Verus proves.

- `src/` — the verified library: build dependency ordering (Kahn's
  algorithm with its laws), the veto Merkle tree and its proofs, veto and
  override state rules, merge blocking, time locks, governance phases,
  YAML configuration mapping, environment configuration, release and
  webhook decisions, status texts, backups, deadlines and the BTC price
  history window.  SHA-256 and hex come from `sha2` and `hex`, and a few
  std calls are used, behind small trusted functions whose contracts are
  stated in `src/codec.rs`, `src/strings.rs` and `src/backup.rs`.
- `tests/` — tests of the library on concrete values.
- `app/` — the unverified shell: process environment, YAML files, JSON
  payloads, clock, the build polling loop, and the floating-point
  arithmetic (veto percentages, weights, prices) that the library cannot
  hold.
