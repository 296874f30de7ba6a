# cx

`cx` manages AI-assisted coding sessions on top of git: a session is a git branch
`cx/<sid>-<slug>`, each `cx apply` records a snapshot (`.cx/sessions/<sid>/snapshots/<turn>.json`)
labelled with an intent (`<type>,scope=<label>[,risk=<level>]`), and `cx status`, `cx log`
and `cx review` show the recorded work grouped by intent.

## Layout

- `src/` — the library, verified with Verus:
  - `text.rs` — characters, trimming, decimal numbers, splitting, joining, lowercase;
  - `order.rs` — `String` order and a stable sort by key;
  - `context.rs` — the data model and the `--intent` parser;
  - `snapshot.rs` — content hashes (SHA-256 over canonical JSON), session ids, branch names;
  - `git_api.rs` — git argument lists and the meaning of git's output;
  - `store.rs` — the `.cx/` layout, snapshot listings, store errors;
  - `session.rs` — what `start`, `apply`, `status`, `end`, `log` and `review` decide;
  - `display.rs` — the lines that the commands print;
  - `cli.rs` — the commands and the author of a session;
  - `laws.rs` — properties that tie several functions together.
- `app/` — the `cx` program: clap, git processes, file reads and writes, JSON through serde,
  printing.
- `tests/` — tests of the library on concrete values.
