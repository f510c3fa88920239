# credential_chain

A registry of worker micro-credentials: workers create credentials, employers
verify them by staking at least 500 USDC, workers rate employers and collect
verified credentials into portfolios that earn a reward each time they are
viewed.

- `src/` is the verified library.
  - `types.rs`: the records (credential, employer, portfolio; texts kept as
    the bytes given), their views,
    and the errors with which a request is refused.
  - `records.rs`: the rules of each request as a step from the records it
    reads to the records it writes.
  - `ledger.rs`: the storage as mathematics (`LedgerView`), what each request
    does to it, and the rules every request keeps, with their proofs.
  - `keyed.rs`: a list of records with unique keys read as a map.
  - `contract.rs`: `CredentialChainContract`, the contract over its own
    storage, each request proved against `ledger.rs`.
  - `laws.rs`: properties across requests and sequences of requests.
- `app/` is the Soroban contract: authorization, the ledger clock,
  persistent storage and the stake token, around the library's steps.
  `initialize` names the stake token (USDC); each verification carries out
  the transfer that the library returns, moving the stake from the employer
  to the contract, where it stays locked.

View earnings are recorded on the portfolio (`earnings_from_views`); the
registry keeps the tally and pays nothing out.
- `tests/` runs the library.
