//! Decryption of a buffer that is held beside no key: the key comes with
//! each call.

use vstd::prelude::*;
use vstd::std_specs::convert::FromSpecImpl;
use vstd::utf8::encode_utf8;
use crate::cryptor::{decrypt_spec, key_array, Aes256Cryptor, IntoBytes};
use crate::error::{is_outcome, CryptorError};

verus! {

/// The bytes to decrypt.
pub struct Decryptor {
    raw_bytes: Vec<u8>,
}

impl View for Decryptor {
    type V = Seq<u8>;

    closed spec fn view(&self) -> Seq<u8> {
        self.raw_bytes@
    }
}

impl<T: IntoBytes<T>> From<T> for Decryptor {
    /// A decryptor for the bytes of `value`.
    fn from(value: T) -> (decryptor: Self)
        ensures
            decryptor@ == value.bytes(),
    {
        Self { raw_bytes: value.into_bytes() }
    }
}

impl<T: IntoBytes<T>> FromSpecImpl<T> for Decryptor {
    /// Two vectors that hold the same bytes need not be one value in
    /// specifications, so no spec function gives the result: the contract
    /// of `from` says what it holds.
    open spec fn obeys_from_spec() -> bool {
        false
    }

    open spec fn from_spec(value: T) -> Self {
        arbitrary()
    }
}

impl Decryptor {
    /// A decryptor for `raw_bytes`.
    pub fn new(raw_bytes: Vec<u8>) -> (decryptor: Self)
        ensures
            decryptor@ == raw_bytes@,
    {
        Self { raw_bytes }
    }

    /// A copy of the bytes to decrypt.
    pub fn get_raw_bytes(&self) -> (raw_bytes: Vec<u8>)
        ensures
            raw_bytes@ == self@,
    {
        self.raw_bytes.clone()
    }

    /// Decrypts the bytes under the key that the 32 bytes of `key` make.
    /// Bytes whose number is no multiple of 16 are refused whatever the key
    /// is; otherwise the key has to be 32 bytes long.
    pub fn decrypt_with(&self, key: &str) -> (res: Result<Vec<u8>, CryptorError>)
        requires
            self@.len() % 16 == 0 ==> encode_utf8(key@).len() == 32,
        ensures
            is_outcome(res, decrypt_spec(encode_utf8(key@), self@)),
            self@.len() % 16 != 0 <==> res == Err::<Vec<u8>, CryptorError>(
                CryptorError::MalformedLength,
            ),
    {
        if self.raw_bytes.len() % 16 != 0 {
            return Err(CryptorError::MalformedLength);
        }
        let cryptor = Aes256Cryptor::new(key_array(key.as_bytes()));
        cryptor.decrypt(self.get_raw_bytes())
    }
}

} // verus!
