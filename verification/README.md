# webadmin

The logic of the Stalwart mail server's web administration interface as a
verified library: principals and the updates between two versions of one,
forwarding rules and the Sieve scripts built from them, the message queue,
DMARC/TLS/ARF reports, tracing events, dashboard metrics, delivery and DMARC
troubleshooting, log and undelete pages, and the form schemas.

- `src/` — the library, verified with Verus. Calls into `chrono`,
  `chrono-humanize`, `humansize`, `base64`, `pwhash` and `ahash` go through
  small trusted wrappers whose contracts are documented where they stand.
- `tests/` — tests of the library on concrete values.
- `app/` — the JSON wire formats (serde copies of the library types with
  conversions both ways) and the few pieces that rest on floating point
  numbers or on std's hasher.
