# muc — multi-user container

A server that stores files for several user accounts on its own disk, and the
clients that talk to it. This crate holds the logic, verified with Verus:

- `src/text.rs` — character-level splitting, replacing and comparing of strings.
- `src/shared/` — what both sides share: directory scans, account ids, the wire
  format (length header, then message), the messages themselves, and their
  RSA encryption under keys kept as PEM text.
- `src/server/` — accounts, registrations and logins, per-user directory trees
  and moving through them without leaving the user's own directory, a client
  session's decisions, channels between threads, and the datagram server's
  client registry.
- `src/client/` — the client's connection state and the routing between its
  user interface and the server.
- `src/front/` — the scenes of the web front page.

`app/` is the server program around it: sockets, threads, the disk, logging
and serialization. `tests/` exercises the library.
