# moonbridge

A protocol gateway library for LLM APIs, verified with Verus. It converts
requests, responses and streamed events between four wire protocols (OpenAI
Responses, OpenAI Chat Completions, Anthropic Messages, Google GenAI) and a
protocol-neutral core representation, and it holds the policy side of a Lua
plugin host: sandbox quotas, scope gating, session state, hook tables and the
checks applied to host API calls.

## Layout

- `src/` — the verified library. Every executable function has a contract
  over mathematical models (`Seq`, `Map`, views of the library's types);
  the laws that relate several functions are public proof functions named
  `law_*`.
  - `json.rs`, `text.rs`, `assoc.rs` — the JSON model, text helpers and small
    keyed collections the rest is built on.
  - `protocol/` — the core representation (`ir.rs`), request context, raw
    messages, and one module per protocol direction and stream codec.
  - `plugin/` — quotas, scope gating, sessions, manifests, hook tables, hook
    chains, host-API checks and the crypto helpers plugins call.
- `tests/` — ordinary Rust tests against the compiled library.
- `app/` — unverified glue: the async adapter and hook traits, serde shapes of
  the library's values, and the mlua runtime that runs plugins under the
  library's policies.

Outside crates are reached from `src/` only through a few trusted items
(`serde_json`, `sha2`, `hmac`, `base64`, and the clock), each with a doc
comment saying what its contract claims.
