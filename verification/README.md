# SpecProbe

SpecProbe reviews a web project against its requirement documents: it turns
Markdown/TXT requirements into acceptance criteria and a test plan, launches
the project and probes it in a browser (or over HTTP), and reports the issues
it finds with their evidence, fix proposals and regression checks. Language
models, when configured, refine the requirements, write browser scenarios,
locate the causes of runtime and browser failures in the source (in executed
reviews) and draft patches; everything they answer is checked before it is
used.

## Layout

- `src/` — the library, written in Verus. Every function carries a contract
  over a mathematical model of its data (`Seq`, `Set`, `Map` views) and is
  proved against it: the requirement rule engine, the review and remediation
  rules, validation of model answers, the chat transport's decisions
  (redacting every message before it is sent, serving a cached answer only
  when it still validates, retries, format fallback and the second validation
  round), the browser plan and event-stream handling, patch checks, redaction, the
  configuration layers and the text rendering. Calls into outside crates
  (`serde_json` for reading `package.json`, `sha2` for cache keys, `base64`
  for embedded screenshots) go through small trusted wrappers whose contracts
  say what the crates document.
- `tests/` — tests of the library on concrete values.
- `app/` — the command-line program: argument parsing, file and process I/O,
  HTTP requests, reading and writing the answer cache files, the Playwright
  sidecar, SQLite archiving, JSON/HTML output.
  It reads the world, hands plain values to the library and prints what comes
  back.

## Verifying

The library is checked with Verus; the public proof functions (`lemma_*`)
state the properties that hold across calls, for example that a remediation
report plans two checks per issue plus one global check, that accepted
browser scenarios only use selectors seen on the page, or that redaction
leaves lines without secrets untouched.
