# transaction_service

A service for business accounts, transactions between them, and signed
webhooks, written in Verus. The library under `src/` holds the rules of the
service, each function with a contract that Verus proves; `app/` is the HTTP
server (axum), the PostgreSQL store (sqlx) and the webhook sender (reqwest)
around it.

- `services::transaction_service` — the creation of a transaction as a
  sequence of requests to the store, each decided from the previous answer.
  Its laws: the result against a store that does not fail, refusals write
  nothing, successes are atomic, balances never go negative (for amounts
  that are not negative, which validation ensures), a transfer conserves
  money, an idempotency key replays the stored transaction, and another
  business's account is refused before its balance is looked at.
- `api::middleware::rate_limit` — token buckets per API key, with exact
  arithmetic in billionths of a token; over any interval a key gets at most
  its burst plus the refill rate's worth of requests.
- `api::middleware::auth`, `api::errors`, `api::handlers` — authentication by
  hashed API key, the error answers, pagination and the handlers' decisions.
- `webhooks::signer`, `webhooks::dispatcher` — HMAC-SHA256 signatures compared
  in constant time, and the retry policy (2, 4, 8, ... seconds, up to an hour).
- `models` — the records and requests, with validation and formatting.
- `crypto`, `encoding`, `clock` — the calls into sha2, hmac, rand, hex, uuid,
  validator and chrono, each with the contract it is trusted to meet.

`tests/` runs the library with the real outside crates.
