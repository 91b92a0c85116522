//! Encryption of a buffer that is held beside no key: the key comes with
//! each call.

use vstd::prelude::*;
use vstd::std_specs::convert::FromSpecImpl;
use vstd::utf8::encode_utf8;
use crate::cryptor::{decrypt_spec, encrypt_spec, key_array, Aes256Cryptor, IntoBytes};
use crate::error::CryptorError;
use crate::padding::padding_len;

verus! {

/// The bytes to encrypt.
pub struct Encryptor {
    raw_bytes: Vec<u8>,
}

impl View for Encryptor {
    type V = Seq<u8>;

    closed spec fn view(&self) -> Seq<u8> {
        self.raw_bytes@
    }
}

impl<T: IntoBytes<T>> From<T> for Encryptor {
    /// An encryptor for the bytes of `value`.
    fn from(value: T) -> (encryptor: Self)
        ensures
            encryptor@ == value.bytes(),
    {
        Self { raw_bytes: value.into_bytes() }
    }
}

impl<T: IntoBytes<T>> FromSpecImpl<T> for Encryptor {
    /// Two vectors that hold the same bytes need not be one value in
    /// specifications, so no spec function gives the result: the contract
    /// of `from` says what it holds.
    open spec fn obeys_from_spec() -> bool {
        false
    }

    open spec fn from_spec(value: T) -> Self {
        arbitrary()
    }
}

impl Encryptor {
    /// An encryptor for `raw_bytes`.
    pub fn new(raw_bytes: Vec<u8>) -> (encryptor: Self)
        ensures
            encryptor@ == raw_bytes@,
    {
        Self { raw_bytes }
    }

    /// A copy of the bytes to encrypt.
    pub fn get_raw_bytes(&self) -> (raw_bytes: Vec<u8>)
        ensures
            raw_bytes@ == self@,
    {
        self.raw_bytes.clone()
    }

    /// Encrypts the bytes under the key that the 32 bytes of `key` make.
    /// Decrypting the result under the same key gives the bytes back.
    pub fn encrypt_with(&self, key: &str) -> (ciphertext: Vec<u8>)
        requires
            encode_utf8(key@).len() == 32,
        ensures
            ciphertext@ == encrypt_spec(encode_utf8(key@), self@),
            decrypt_spec(encode_utf8(key@), ciphertext@) == Ok::<Seq<u8>, CryptorError>(self@),
            ciphertext@.len() == self@.len() + padding_len(self@.len()),
            ciphertext@.len() % 16 == 0,
            ciphertext@.len() >= 16,
    {
        let cryptor = Aes256Cryptor::new(key_array(key.as_bytes()));
        cryptor.encrypt(self.get_raw_bytes())
    }
}

} // verus!
