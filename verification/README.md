# cornerback

A webhook capture daemon: it receives webhook events, stores them, replays them
and forwards them to a target server. Its logic is a library verified with
Verus; the HTTP server around it is ordinary Rust.

## Layout

- `src/` — the verified library (`cornerback`)
  - `clock.rs` — reading the system clock as a timestamp, without panicking
  - `json.rs` — the JSON document model of event headers and bodies, viewed as
    mathematical values (objects as maps)
  - `models.rs` — events; setting a header
  - `store.rs` — paging, and the in-memory event store with read-after-write laws
  - `headers.rs` — request headers and boolean header flags
  - `error.rs` — API errors and their JSON bodies
  - `config.rs` — configuration and the choice of event store
  - `shared.rs` — serving a webhook request or a replay, as steps that say which
    store or target action comes next
  - `channels/` — buffering, joining, collecting and splitting of event channels,
    the filter and transform decisions, and the example pipelines' steps
- `app/` — the daemon: axum routes, the asynchronous store trait and its
  in-memory and Postgres stores, middleware, configuration loading, and the
  asynchronous channel chain
- `tests/` — tests of the library
