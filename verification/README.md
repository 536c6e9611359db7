# codex_native

Conversations that show the threads of a Codex app-server: the library decides what is sent to the
app-server, what its replies and notifications mean, which threads of a watched workspace are shown,
and how conversations, messages and bindings change. The functions of the library are verified with
Verus against their contracts. What is believed without proof are the contracts of the small wrappers
round `serde_json` and the standard library, in `json`, `wire` and `text`; each names what it calls.

- `src/` holds the library. `json` and `wire` are the documents and their text; `text`, `names`,
  `table`, `buffers` and `paths` are the data structures; `protocol`, `rpc`, `calls` and `gateway`
  are the connection to the app-server; `thread`, `discovery`, `sync`, `metadata`, `subagents`,
  `upkeep` and `history` follow threads; `items`, `projection` and `actions` turn what happens in a
  thread into things to be done; `confirmation`, `session`, `rows` and `bindings` are what users see
  and what is stored.
- `app/` runs it: sockets, the database, the clock and the event loop.
- `tests/` runs the library on values, with everything stored in memory.

The library performs nothing itself. It returns lists of `Action`s, which `app/` carries out in order
up to the first that fails, and `Discovery` says what is to be asked for next. Laws that relate several
functions are public proof functions beside them.
