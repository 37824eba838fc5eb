# cellerd

The verified core of the Celler binary cache server's request handling, written
in Rust and proved with Verus.

- `src/` is the library.
  - `headers`: what a header map holds, and reading and writing it
  - `uuid_text`, `op_id`, `request_id`: the identifiers and how they are written
  - `request_span`: a request's span, its IDs and the trace context it propagates
  - `correlation`: giving identifiers to requests and responses
  - `middleware`: which hosts are served, per-request state, cache visibility
  - `export`, `startup`: what is exported, and what each server mode runs
- `tests/` runs the library on concrete requests.
- `app/` is the server program around the library: command line, OpenTelemetry
  pipeline, axum middleware.

The contracts rest on what the `http`, `uuid`, `opentelemetry`,
`tracing-opentelemetry` and `tracing-subscriber` crates do. Each such assumption stands at a function marked
`external_body`, whose comment names the call and says what is taken for granted.
