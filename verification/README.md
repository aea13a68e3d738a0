# pure2p

A peer-to-peer messenger's core, verified with Verus.

- `src/` is the library. Every function there is proved against its
  contract: identities and key agreement (`crypto`), the encrypted message
  envelope (`protocol`), the CBOR records it signs and sends (`cbor`,
  `wire`), signed contact tokens and local state (`storage`), the retry
  queue (`queue`), messaging decisions (`messaging`), and the NAT traversal
  wire formats and strategy order (`connectivity`). Calls into outside
  crates (SHA-256, Ed25519, X25519, XChaCha20-Poly1305, base64, chrono,
  uuid, rand) sit behind small trusted functions whose contracts say what
  the crates document.
- `app/` holds what needs the network, the file system or serde:
  the SQLite database, JSON/CBOR files, UDP and HTTP probes, UPnP, and the
  asynchronous loops that hand their outcomes to the library.
- `tests/` runs the library on concrete values.
