//! Password-locked USB vault: AES-256 in counter mode, SHA-256, HMAC and
//! PBKDF2 key derivation, the on-disk vault header, and the decision logic of
//! the command line and the terminal interface.

pub mod cli;
pub mod crypto;
pub mod tui;
pub mod usb;
