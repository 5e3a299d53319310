# weaverd dispatch

The request-dispatch core of the `weaverd` daemon, written in Verus. The
library's logic in `src/` is verified against its contracts; the few calls
into `std`, `serde_json`, `lsp-types` and `url` stand behind small trusted
wrappers, and some helpers (constructors, getters, private steps) carry no
contract of their own. The library targets Unix paths.

- `src/` — the verified library: JSONL request reading and parsing, domain
  routing, structured dispatch events with redaction, response framing, the
  `act refactor` pipeline (arguments, positions, plugin requests, provider
  resolution, plugin responses) and the `observe` logic (arguments, card
  order, card budget, hover parsing, extraction refusals, source paths).
- `tests/` — tests run against the compiled library.
- `app/` — the I/O around it: socket streams, `tracing` output, the
  per-connection loop, plugin processes and file access.

Each trusted wrapper's doc comment says what is assumed of the call it
makes.
