# Invoice service

A small invoice and payment service (Axum, SQLx, PostgreSQL) whose decisions are a library
verified with Verus.

- `src/` is the library. It holds every rule of the service: what a request is refused for,
  which step follows which while an invoice is made or paid, how a charge ends, how webhooks
  are signed and when they are tried again. It does no I/O. A function that needs several
  turns with the database or the PSP is a row of steps: a step names what is to be done, and
  the function says from the reply which step follows.
  - `routes/payments.rs`, `routes/invoices.rs`, `routes/customers.rs`,
    `routes/webhook_endpoints.rs`: what the handlers decide.
  - `psp.rs`, `mock_psp.rs`: charging a card, and the stand-in for the PSP.
  - `webhooks.rs`: events, signatures and retries.
  - `api_keys.rs`, `config.rs`, `error.rs`, `models/`: keys, settings, errors and data.
  - `ledger.rs`: what holds of payments as a whole, however they are interleaved, fail or
    break down. An invoice has at most one attempt that is pending or has succeeded, the PSP
    is asked at most once for an attempt, and no more for an invoice once an attempt to pay
    it has succeeded.
  - `registry.rs`: what holds of customers, invoices and webhook endpoints as a whole. An
    invoice is for a customer of its own business, no two customers of a business have the
    same email, and customers and invoices are read back as they were answered.
  - `queue.rs`: what holds of webhook deliveries as a whole. A delivery that a worker holds
    is taken up by nobody else until its attempt is recorded.
  - `listing.rs`: which rows a list shows, and in which order.
  - `text.rs`, `digest.rs`, `ids.rs`, `json.rs`, `secrets.rs`, `clock.rs`: text, hashes,
    UUIDs, JSON, random secrets and the clock. What is believed of other crates stands here
    and in `psp.rs`.
- `app/` performs the steps: the HTTP server, the database, the clients. `mock-psp` as its
  first argument starts the mock PSP instead.
- `extras/migrations/` is the schema of the database.
- `tests/` runs the library against tables in memory and the mock PSP.
