# relay_viewer

Display logic of a Nostr relay event viewer, verified with Verus.

- `src/` — the verified library: event-kind names (`kinds`), relative
  timestamps (`time`), shortened author keys (`npub`), event records
  (`models`), display-name resolution from profile metadata (`names`),
  errors (`error`) and the records handed to native front ends (`ffi`);
  decimal rendering and string helpers live in `text`.
- `app/` — the relay client (nostr-sdk over tokio), the SQLite event store
  (rusqlite) and the app object, which call into the library.
- `tests/` — tests of the library.
