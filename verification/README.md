# cashu_service

Cashu payment primitives for paid connectivity services, with their accounting
and protocol decisions proved correct by Verus.

## Layout

- `src/` — the verified library.
  - Credit accounting for sat-denominated bilateral credit: `protocol`, `ledger`,
    `model` (the abstract account and what every operation does to it),
    `account`, `account_ops`, `settlement_ops`, `idmap`, `deposits`, `error`,
    and `exposure` (order-independent totals over an account's tables).
  - Snapshots: `snapshot_model` (what a valid snapshot is), `snapshot`
    (validation), `restore` (saving and restoring an account).
  - Laws: `laws` (the account invariant every operation keeps, revisions,
    caps, conservation, replay and conflict behaviour of every operation) and `snapshot_laws` (every operation keeps a restorable snapshot
    restorable), with `pairs` holding the supporting facts about sorted tables.
  - Streaming routes: `spilman` (metering, routing decisions, units, token
    leases), `spilman_payment` (payment requests, claims and envelopes),
    `receiver` (receiver configuration and key files).
  - Wallet: `wallet` (records, mint URLs, transfer requests), `activity` (the
    activity log), `wallet_inputs` (what is read from tokens, proof lists
    and operation ids), `wallet_ops` (checks, proof imports, balances,
    activity records), `transfer` (the cross-mint transfer saga), `seed`, `text`,
    `textbuf`.
- `tests/` — tests of the library on concrete values.
- `app/` — the parts that do I/O: JSON encodings, files, and the wallet's
  operations against mints through `cdk` and `cdk-sqlite`, each of which hands
  its decisions to the library.

Every trusted boundary of the library (calls into `url`, `hex`, `cdk`,
`serde_json`, `uuid` and `String::push`) is a small function marked
`#[verifier::external_body]` whose doc comment states what its contract
claims.
