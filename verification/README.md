# service

The account service of a small web backend: users sign up with a password,
log in, and receive a signed session token.

`src/` is the verified library:

- `config` – the rules for required and optional configuration variables,
  and comma-separated lists (`split_commas`, `CommaVec`), with the law that
  joining the pieces gives the text back.
- `error` – the errors reported to clients and their HTTP status codes.
- `crypto::token` – tokens `base64url(base64url(data) "." base64url(hmac))`;
  `verify` gives back exactly what `sign` signed under the same secret.
- `crypto::password` – Argon2 PHC hashes with a pepper as secret.
- `action::user`, `action::session` – the decisions taken while signing up,
  logging in (pepper rotation with rehash) and checking session tokens.
- `entity` – the stored password credentials.
- `schema` – the tables of the first migration and the order they are dropped in.

Calls into base64, hmac/sha2 and argon2 go through small trusted wrappers whose
contracts name what those crates compute.

`app/` is the HTTP server (axum, sea-orm, tokio): it reads the environment,
talks to the database and hands plain values to the library.
