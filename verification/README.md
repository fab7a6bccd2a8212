# hashmaker

A password-hashing service: MD5, SHA-1, SHA-2, SHA-3, BLAKE2, bcrypt,
Argon2id, PBKDF2-SHA256, scrypt and WordPress phpass hashes of a password,
served over HTTP.

- `src/` is the library, verified with Verus:
  - `algorithm.rs`: the algorithms, their identifiers, labels, categories
    and descriptions;
  - `phpass.rs`: the phpass portable hash (`$P$`) with its base-64 encoding;
  - `hash.rs`: hashing a password with an algorithm and options;
  - `service.rs`: the algorithm catalogue, hashing requests and their
    reports, and the choice of static files and their content types;
  - `crypto.rs`: the calls into the cryptographic crates, with the
    contracts that the library relies on;
  - `text.rs`: small string helpers.
- `app/main.rs` is the HTTP server (axum), which reads requests, calls the
  library and writes JSON. It serves the single-page front end from
  `static/`: from disk in debug builds, built into the binary in release
  builds.
- `tests/` holds the tests.
