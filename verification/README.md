# ttl_legacy

A dead-man's-switch vault service, verified with Verus.

- `src/ttl.rs` — how many ledgers of storage lifetime a vault's check-in interval asks for.
- `src/contract/` — the vault contract as a state machine over plain values:
  vaults, check-ins, deposits and withdrawals, release and vesting, multi-beneficiary
  payouts, multi-signature proposals, passkeys, disputes and administration. Every
  public operation states, over the view of the contract, when it succeeds, which
  error it returns otherwise, and the state and token transfers it produces. The
  host environment stays outside: callers authenticate the caller, pass the current
  time and carry out the returned transfers. Ledger events and storage lifetimes are
  not modelled.
- `src/backend/` — the off-chain service: vault and event stores, compliance
  reports, exports, backups, sharing, notification preferences and the notification
  scheduler's decisions.
- `src/contract/laws.rs`, `src/backend/laws.rs` — properties that span operations,
  stated and proved as proof functions.
- `app/` — JSON types, the push-notification client and the delivery loop, which use
  the library.
