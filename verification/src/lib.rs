//! Packet primitives of the Tox protocol: the cookie of the crypto
//! handshake and the first request of an onion chain.
//!
//! Each packet type comes with
//! - a view, which holds its fields as sequences of bytes;
//! - its wire form, `wire`, a function of the view, and `to_bytes`, which
//!   writes just that into a buffer;
//! - its parser, `parse`, a function on sequences of bytes, and
//!   `from_bytes`, which answers just what the parser does;
//! - a proof that what is written parses back to the same value.
//!
//! Sealing, opening and hashing are libsodium's, reached through
//! `sodiumoxide`. What a box or a digest holds is not revealed to the
//! proofs: the contracts name it (`secretbox_sealed`, `box_opened`,
//! `sha512_digest`, ...) and rest on three things that the cipher promises:
//! that the same input gives the same output, that a box is
//! `MACBYTES` longer than its message, and that a box opens under the nonce
//! and key that sealed it.

pub mod binary_io;
pub mod cookie;
pub mod crypto_core;
pub mod onion;
pub mod onion_request_1;
pub mod secretbox;
pub mod sha512;
pub mod time;
pub mod utils;
