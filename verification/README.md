# trustedge-core

Privacy and trust at the edge: encrypted, signed data streams, `.trst`
archives with continuity chains, hybrid envelopes, mutual authentication and
key backends, with the logic verified by Verus.

## Layout

- `src/` is the verified library.  Every function there carries a contract
  that Verus proves; the cryptographic primitives of the outside crates
  (BLAKE3, Ed25519, P-256, RSA, AES-GCM, XChaCha20-Poly1305, HKDF, PBKDF2,
  SHA-2, X25519, base64, hex, serde_json string escaping, the clock and the
  random source) are reached only through the trusted wrappers of
  `src/primitives.rs`, each of which states what the library relies on.
  - `format`, `chunk_manifest`, `codec`: byte layouts of stream headers,
    chunk manifests and signed manifests, with round-trip laws.
  - `client`, `server`, `network_chunk`: sealing chunks and the per-connection
    decisions of a receiver (stream locking, ordering, limits, decryption),
    with the law that a sealed chunk opens and a replayed one is refused.
  - `auth`: certificates, challenges, sessions and the handshake, with the
    law that both sides derive the same session key.
  - `archive`, `manifest`, `chain`: archive layout rules, camera manifests and
    their canonical bytes, and continuity-chain validation.
  - `crypto`, `envelope`, `hybrid`, `envelope_v2_bridge`, `asymmetric`,
    `point_attestation`: device keys, segment encryption, envelopes and
    attestations.
  - `backends`: the universal backend interface, the keyring-derived key
    backend and the software HSM.
- `tests/` exercises the library on concrete values.
- `app/` is the application layer: files, sockets, JSON and command lines
  (`client` and `server`), around the library.
