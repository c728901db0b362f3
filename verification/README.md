# animus_trigger_webhook

A generic HTTP webhook receiver for Animus: every `POST /` or
`POST /webhooks/<segment>` becomes one trigger event (`kind = "webhook"` or
`"webhook.<segment>"`), with the JSON body as payload (`{}` when empty,
`{"raw": "<text>"}` when not JSON) and optional bearer authentication.

Layout:

- `src/` — the verified library (Verus):
  - `config.rs`: configuration and the rules resolving it from raw settings
    (defaults, empty-token handling, channel-buffer parsing);
  - `server.rs`: per-request decisions (route kind, segment sanitizing,
    header reading, bearer check, `401`/`413`/`202`/`503` answers);
  - `event.rs`: the event model and body-to-payload conversion (JSON parsing
    through serde_json, UUID ids, clock readings);
  - `backend.rs`: schema, single-watcher lifecycle, health, manifest flag;
  - `text.rs`: string helpers.
- `app/` — the plugin binary: environment, axum server, tokio channel, watch
  stream and the Animus plugin runtime, calling the library for every decision.
- `tests/` — tests of the library.
