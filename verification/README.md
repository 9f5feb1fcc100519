# Gaggle

The core of an agent-to-agent negotiation platform: agents register, publish
needs, discover providers, sign contracts with milestones, and receive events
reliably over WebSocket connections. The library under `src/` is written in
Verus and proved against its contracts. `app/` holds the process entry
point around it: configuration, the periodic governor, webhook delivery and
the SQLite market price store. It serves no HTTP or WebSocket traffic; a
transport would parse requests into the library's request types (such as
`ws_core::WsRequest`) and carry out the replies.

## Layout

- `src/text.rs`, `src/seqs.rs` — string and sequence helpers with their
  specifications, shared by the rest.
- `src/sys.rs` — the clocks and random identifiers.
- `src/error.rs`, `src/config.rs` — errors with their codes and HTTP
  statuses; configuration from settings.
- `src/agents/` — agent registration, keys, lookup, ownership and bearer
  authentication.
- `src/discovery/` — the need board, the provider directory, full-text query
  building and paging.
- `src/execution/` — contracts and milestones, their state machine and laws.
- `src/api/event_queue.rs` and `queue_laws.rs` — the per-agent event queue
  with acknowledgement, retries with backoff and dead letters.
- `src/api/trace.rs` — the audit trail.
- `src/api/middleware.rs`, `rate_laws.rs` — the per-address rate limiter.
- `src/api/ws.rs`, `session.rs`, `ws_core.rs` — WebSocket limits, the
  idempotency cache, the table of live connections, the per-connection loop
  decisions, and what each protocol request does and is answered.
- `src/api/webhook.rs`, `delivery.rs` — which callback URLs are accepted,
  where a queued event goes next, and how a wake-up call is retried.
- `src/api/scheduler.rs` — the periodic retry and housekeeping round.
- `src/api/rest/` — the rules behind the REST endpoints.
- `app/` — `main`, the governor loop, webhook delivery, the SQLite market
  price store, and the conversion of provider search parameters.
- `tests/` — tests of the library on concrete values.

Each `law_*` proof function states a property that spans several operations;
its doc comment says it in words.
