# failsafe

The verified core of Failsafe, a cross-device sync system: a registration
server handles accounts, device pairing and policy, and devices talk to each
other peer to peer. This crate holds the logic of both sides, written in Verus
and proved against its contracts; `app/` holds the program around it.

## Layout

`src/` (verified):

- `bytes`, `handshake`, `codec` — the wire: big-endian integers, the
  handshake records that open peer streams (desktop, input, LAN, port, screen,
  shell), feature-message frames and virtual-LAN packets, with their
  round-trip laws.
- `network`, `router`, `peers`, `pool` — an in-memory network with
  per-device inboxes (delivery in order), the choice of recipients of an
  outbound message, its delivery to each of them and the report of failed
  deliveries, the peer address
  book and the device behind a remote endpoint, and the pool of live
  connections, one per device.
- `blobs`, `blob_store`, `keyed` — blob and collection hashes (BLAKE3), the
  safe names of exported files, the steps of imports, downloads and exports
  with their progress, and an in-memory blob store.
- `shell_host` — when a remote shell may be opened, how the hosted shell
  starts, and the steps of relaying to and from its terminal.
- `accounts`, `auth`, `totp`, `secrets` — registration, login with and without
  a second factor and the tokens it hands out, password change (which revokes
  the account's refresh tokens), two-factor set-up; JWTs, Argon2, TOTP,
  AES-GCM sealing of TOTP secrets, recovery codes.
- `devices`, `virtual_ip`, `presence`, `pairing`, `rate_limit` — the device
  registry (register, patch, remove, heartbeat, list), virtual-LAN addresses,
  online status, refresh-token rotation and logout, token and pairing-code
  lifetimes, pairing codes, and the request limiter.
- `config`, `error` — where the server listens, its database and keys, which
  page answers a path; errors and the HTTP answers they become.
- `ids`, `text` — identifiers and the string operations the rest builds on.

`app/` (not verified): the server's start-up from the command line and the
environment, the JSON forms of messages, files on disk, and the terminal
relay loop.

`tests/`: the handshake, server and transport tests, and tests of the
contracts on concrete values.
