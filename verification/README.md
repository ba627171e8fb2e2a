# ragent

An AI agent runtime around the OpenResponses API, whose behaviour beyond
model I/O and the ReAct loop comes from WASM extensions that subscribe to
hooks. Sessions, their events and their configuration revisions are kept in
a SQLite store.

The library under `src/` is verified with Verus: every public function
states what it returns or changes, and the properties that span several
functions (the store's incremental status equals a rebuild from its events,
a context never holds system messages, canonical configuration text does not
depend on member order, hook dispatch lists each subscription once in
priority order, and others) are public proof functions.

- `src/` — the verified library: domain types, the session store's plans,
  hook dispatch decisions, the agent loop's decisions, configuration
  resolution, the command line parser, and the bundled extensions' logic.
- `app/` — the program: SQLite, files, the WASM host, the model client,
  channels and the loops that perform what the library decides.
- `tests/` — tests of the library.
