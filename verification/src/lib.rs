//! AES-256 encryption and decryption of byte buffers, one independent
//! 16-byte block at a time, with a PKCS7-style padding codec in front of the
//! block cipher.
//!
//! An [`Aes256Cryptor`] holds a 32-byte key. Its `encrypt` pads the bytes it
//! is given to whole blocks and encrypts each block on its own; its `decrypt`
//! decrypts each block and removes the padding, or says why it cannot.
//!
//! The padding codec ([`padding`]) is verified in full. The block cipher
//! itself comes from the `aes` crate and is reached through the few trusted
//! declarations of [`cipher`]. There is no chaining and no authentication:
//! equal blocks of plaintext give equal blocks of ciphertext, and a
//! ciphertext that was tampered with is only refused where its padding no
//! longer holds.

pub mod cipher;
pub mod cryptor;
pub mod decrypt;
pub mod encrypt;
pub mod error;
pub mod padding;

pub use cryptor::Aes256Cryptor;
pub use error::{CryptorError, PaddingError};
pub use padding::split_into_16byte_blocks;
