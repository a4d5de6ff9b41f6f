# propeller

A realtime push gateway (client, device and topic channels over Redis
Pub/Sub, reached by WebSocket and gRPC clients) together with a small payment
backend (gateway routing, webhook intake, idempotent processing,
reconciliation). The logic is a Verus library whose behaviour is stated in
contracts and proved; the servers around it are ordinary Rust.

## Layout

- `src/` — the verified library
  - `auth.rs`, `token.rs`, `claims.rs`, `headers.rs`, `text.rs` — bearer
    tokens (HS256 signature check, claim validation, tenant and client
    identity), API-key admission, legacy header fallback, tenant-scoped
    channel names
  - `push.rs` — subscription plans, publish targets, device records
  - `grpc.rs`, `ws.rs` — the decisions of the gRPC and WebSocket faces:
    acknowledgements, request plans, idle and ping/pong keepalive
  - `config.rs`, `error.rs`, `metrics.rs` — configuration checks, error
    kinds and their rendering, counters
  - `payments.rs` — payment gateways, the first-success router, webhook
    idempotency keys, stream reads
  - `laws.rs` — properties that span several functions
- `tests/` — tests on concrete values
- `app/` — the binaries: Redis, Postgres, HTTP and gRPC plumbing, and the
  JSON and protobuf forms of the library's types

## Running

`propeller` runs the push server (configuration in `config/propeller.*`);
`propeller api` and `propeller worker` run the payment API and worker
(`DATABASE_URL`, `REDIS_URL`, `API_ADDR`).
