# NerveMQ

A lightweight, SQLite-backed message queue with an AWS SQS-compatible API.

## Layout

- `src/` is the verified library. Every function carries a `requires` /
  `ensures` contract that Verus checks:
  - `sqs/`: the SQS protocol (operation names, request routing, message
    attribute encoding and MD5 digests, batch responses, long polling, and
    the limits on delays, visibility timeouts and message sizes).
  - `auth/`: the SigV4 `Authorization` header grammar, canonical requests and
    signature checking, protected routes and role checks.
  - `message.rs`: the message lifecycle (send, receive with a visibility
    timeout, delete by receipt handle, redelivery limits) and its laws.
  - `config/`: layered configuration, with the laws of layering.
  - `service/`, `api/`, `cli.rs`, `kms/`: access rules, queue attributes
    and their set-then-get laws, login and password hashing, user
    management checks, encryption under stored keys and key rotation.
  - `text.rs`, `digest.rs`, `numeric.rs`: string, hex, percent-encoding and
    decimal helpers the rest is stated over.
- `tests/` runs the library on concrete values.
- `app/` is the server and the command line around the library: HTTP
  routing, sessions, the SQLite store, environment variables and terminal
  prompts. Message operations load the stored messages into the library's
  `MessageQueue` and write back what it decides.

Calls into outside crates (hashing, HMAC, AES-GCM-SIV, Argon2, base64,
URL encoding, SigV4 signing keys) go through small trusted wrappers whose
doc comments say what their contracts claim.
