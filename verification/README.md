# mission_control

The core of the AI Tinkerers Mission Control tray app, verified with Verus.

`src/` is the library. Every function in it carries a contract that Verus
proves:

- `text`: character-level helpers (trimming, integer parsing and printing,
  substring search, string order), stated over `Seq<char>`.
- `json`: a JSON document as plain values, with the accessors payloads are
  read with, and the length of its compact JSON text (string escaping is
  serde_json's).
- `error`: the app's typed errors and their stable codes.
- `api`: the exact request each Agents API call sends, how a response
  envelope becomes data or an error, rate-limit headers, the pitch body cap,
  and onboarding checks.
- `sync`: what background sync reads out of each payload, how an API outcome
  degrades a feature or backs it off (with an exponential, capped window),
  the step-by-step decisions of the email refreshes, which event the tray
  shows, and the generation job decisions.
- `store`: the cache's row rules: retention scoped to one kind or partition,
  frozen completed send jobs and throughput, the event detail view, multi-source rows that never clobber an
  untouched source, in-flight job lookup, and row extraction from payloads.
- `write_guard`: the prepare/commit confirmation gate for every mutation,
  with its laws (single use over any run of commits, tamper rejection,
  expiry, locality).

`app/` is the Tauri shell around the library: windows and tray, the poll loop,
the SQLite statements, HTTP, the keychain, and the few computations on
floating-point numbers.

`tests/` exercises the library on concrete values.
