# chill

A client-side CouchDB library. The library in `src/` is written in Verus:
its data types, parsers and the decisions of each action carry contracts
that Verus proves.

- `src/path.rs`, `src/path_ref.rs`: database, document, design-document,
  attachment and view paths; parsing, segments and percent-encoded text.
- `src/revision.rs`: document revisions (`42-<32 hex digits>`).
- `src/json.rs`: the JSON value the library works on, and its model.
- `src/attachment.rs`, `src/document.rs`, `src/view.rs`: attachments,
  documents and view responses, decoded from and encoded to JSON.
- `src/transport.rs`, `src/action.rs`, `src/database.rs`: requests, and
  what each action asks of the server and makes of its response.
- `src/worker.rs`: the bookkeeping of the background workers that send
  requests.
- `src/testing.rs`: reading a test server's start-up line.
- `src/outside.rs`: the trusted interfaces to `url`, `uuid`, `mime`,
  `base64` and `regex`.

`app/` is the ordinary Rust around it: the HTTP transport (`reqwest`) and its
worker threads, JSON text through `serde_json`, the `Client` entry points, and
a CouchDB server process for tests.
