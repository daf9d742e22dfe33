# clipsync

Clipboard sharing between devices, on the local network or through a relay
server, written in Verus.

- `src/` is the verified library: clipboard content and items, device
  identity, X25519 key exchange and AES-256-GCM encryption, the protocol's
  messages, mDNS announcements and the table of discovered devices, the
  UDP presence announcements and the peer table, the clipboard bookkeeping
  (echo suppression, last write wins), the relay client's URL and room
  handling, and the relay server's rooms. Calls into outside crates go through
  small trusted wrappers whose contracts are stated next to them.
- `app/` is the program around it: the command line, sockets, WebSockets,
  the HTTP server, the system clipboard, mDNS daemon and JSON encoding of
  messages.
- `tests/` exercises the library with the real outside crates linked.
