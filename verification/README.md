# kiro_rs

Request-shaping logic of a Kiro API gateway, verified with Verus.

- `src/` — the verified library:
  - `text_truncate`: per-field middle truncation under a byte cap, UTF-8 safe.
  - `payload_truncate`: whole-request byte cap; drops the oldest history turns, keeps the
    system-priming pair, the most recent turns and the current message.
  - `kiro_request`: the conversation request, its abstract view and its JSON wire body.
  - `responses_compaction`: classification of compaction requests, the summarization request,
    bounded tool outputs for the retry and the retry step, judgement of the answer, the opaque
    summary payload.
  - `compaction_render`: JSON text of the compaction response object and event stream.
  - `http_client`: proxy configuration and timeout settings.
  - `available_profiles`: profiles and the region of a profile ARN.
  - `settings`, `utf8_text`, `json_text`: parsing of setting values, char-boundary search,
    JSON string literals.
- `tests/` — tests of the library.
- `app/` — environment reading, the reqwest client, serde forms, the HTTP responses and the
  loop around the upstream calls.
