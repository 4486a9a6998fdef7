# arcan

A zero-knowledge password manager: a command-line client that keeps vaults
and items encrypted on the device, and a sync server that stores only
ciphertext and orders changes with per-vault revisions.

- `src/` is the verified library (Verus). `crypto` holds key derivation
  (Argon2id, HKDF-SHA256) and XChaCha20-Poly1305 payloads; `encoding`,
  `ids` and `text` the Base64, UUID and e-mail rules; `shared` the wire
  messages; `server` the decisions of the endpoints (salt lookup, login
  attempts, token claims, the optimistic-concurrency push and the pull
  plan); `client` the session, vaults, items and the client side of sync.
- `tests/` exercises the library on concrete values.
- `app/` is the program around it: the HTTP server (axum, PostgreSQL,
  Redis, OPAQUE) started with `arcan serve`, and the CLI client (clap,
  SQLite, prompts).
