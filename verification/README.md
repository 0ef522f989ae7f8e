# usb_vault

A password-locked USB vault: the library behind a tool that encrypts a whole
drive in place with AES-256 in counter mode under a key derived from a
password with PBKDF2-HMAC-SHA256 (600 000 iterations), and keeps a 69-byte
header at the start of the drive (magic, version, salt, nonce, and a
SHA-256 tag that confirms the key).

The library is written in Verus and proved against the standards' own
definitions:

- `src/crypto/gf256.rs`: GF(2^8) multiplication and inversion.
- `src/crypto/aes.rs`: the AES-256 key schedule, block cipher and counter
  mode (FIPS-197, SP 800-38A), the verification tag, and the algebraic
  description of the S-box.
- `src/crypto/sha256.rs`: SHA-256 (FIPS 180-4).
- `src/crypto/kdf.rs`: HMAC-SHA256 and PBKDF2.
- `src/usb.rs`: the vault header, sealing and unlocking a vault, and the
  chunking of the device data.
- `src/cli.rs`: the command line.
- `src/tui.rs`: the state machine of the terminal interface.

`app/` is the program around it: device I/O, the ratatui/crossterm screens,
and password prompts.
