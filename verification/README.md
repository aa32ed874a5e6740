# trackmyfi

The verified core of a local-first FIRE (financial independence) tracker:
accounts, transactions, balance snapshots, paychecks, HSA expenses, a bank
bridge (SimpleFIN) and optional cloud sync of the database.

- `src/` is the library, written in Verus. Every function has a contract;
  all are proved except eleven small `#[verifier::external_body]` wrappers
  around std, chrono, base64 and uuid calls, whose contracts are trusted and
  say in their doc comments what they claim of the outside code. Money is
  held in integer cents.
  - `ledger`: balance deltas per account type, in-memory snapshot chains, the
    snapshots a batch of transactions generates, and re-projection of a chain
    after an edit.
  - `stats`: cash-flow statistics per month or year (income, expense,
    savings, spending categories), with paycheck attribution and proration.
  - `simplefin`: bank-import rules (description cleanup, categories, transfer
    detection, duplicate pairing, sync scheduling and fetch windows, setup
    token decoding); `bridge` holds the request and state plumbing around it.
  - `rules`: SQLite `LIKE` matching and the suppression rules built on it.
  - `query`, `deletion`, `matching`: SQL text and parameters for filters,
    pages, statistics, range deletion, transfer/duplicate matching and the
    budget and contribution listings.
  - `db`, `sync`, `storage`: which database file to open, sync status and the
    refresh rendezvous, attachment storage targets and timestamps.
  - `paychecks`: the transactions a paycheck generates.
  - `text`, `dates`: string and date primitives the rest is stated over.
- `tests/` exercises the library on concrete values.
- `app/` is the unverified shell: database, keychain, HTTP and object-store
  I/O, serde copies of the library's types, and the command handlers that
  feed the library plain values.
