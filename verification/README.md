# chaperone

Local identities, signed key rotation, key agreement and an encrypted vault, written in Rust and
verified with Verus.

`src/` is the library. Every function in it carries a contract that Verus proves; the calls into
outside crates stand behind small functions whose contracts are trusted, most of them in
`crypto.rs`, `entropy.rs`, `clock.rs`, `text.rs`, `base32.rs` and `base58.rs`.

| Module | What it holds |
| --- | --- |
| `identity`, `keychain`, `did_key` | the user's keys, where they are kept, and the `did:key` name |
| `rotation` | the chain in which each signing key signs the next |
| `handshake` | the X3DH key agreement |
| `vault` | keys derived from a PIN, sealed rows, the unlocked vault |
| `secret_key` | the 128-bit key that the user writes down |
| `onboarding` | setting up a user, and the proof that the secret key was written down |
| `logging`, `key_bytes` | values that must not be logged, keys that are erased when dropped |
| `numeral`, `base32`, `base58`, `text`, `bytes` | numerals, encodings, text |

`tests/` runs the library. `app/` is the command line around it: the keychain of the operating
system, the SQLite database, the network, logs and serialization.
