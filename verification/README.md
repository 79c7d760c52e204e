# Oyun Kafe Yönetim — verified core

The rules of a game-café management panel, written in Verus and proved
against their contracts: session timing (pauses, resumes, billed minutes,
the session-length limit), the tariff chosen by payment method, licence
tokens (hex payload, dot, Ed25519 signature) and the trial period, password
hashes and the login lockout, stock keeping, settings, the filtered history
query, old-backup clean-up, the web viewer's sign-in tokens and routing, and
the cloud mirror's bookkeeping.

- `src/` — the verified library; each module starts with what it covers.
- `tests/` — tests on concrete values, run against the compiled library.
- `app/` — the process around it: the SQLite database, the desk commands,
  the web viewer's HTTP server, the cloud mirror and the licence server
  requests, and the money amounts, which are floating point.
