//! The cryptor: a validated 32-byte key with its cipher, which encrypts and
//! decrypts whole buffers.

use vstd::prelude::*;
use vstd::slice::slice_to_vec;
use vstd::std_specs::convert::TryFromSpecImpl;
use vstd::utf8::encode_utf8;
use aes::Aes256;
use crate::cipher::{
    cipher_key, decrypt_blocks, ecb_decrypt, ecb_encrypt, encrypt_blocks, new_cipher,
};
use crate::error::{is_outcome, CryptorError};
use crate::padding::{
    into_blocks, join_blocks, lemma_pad_len, lemma_unpad_pad, pad, pad_spec, padding_len, unpad,
    unpad_spec,
};

verus! {

/// The ciphertext of `plaintext` under `key`: the padded plaintext, each
/// block encrypted on its own.
pub open spec fn encrypt_spec(key: Seq<u8>, plaintext: Seq<u8>) -> Seq<u8> {
    ecb_encrypt(key, pad_spec(plaintext))
}

/// What decryption under `key` makes of `ciphertext`. A length that is no
/// multiple of 16 is refused before anything else; otherwise each block is
/// decrypted on its own and the padding is removed from the result.
pub open spec fn decrypt_spec(key: Seq<u8>, ciphertext: Seq<u8>) -> Result<Seq<u8>, CryptorError> {
    if ciphertext.len() % 16 != 0 {
        Err(CryptorError::MalformedLength)
    } else {
        match unpad_spec(ecb_decrypt(key, ciphertext)) {
            Ok(plaintext) => Ok(plaintext),
            Err(e) => Err(CryptorError::of_padding(e)),
        }
    }
}

/// A value that can be turned into the bytes to encrypt or decrypt: a byte
/// buffer, which stands for itself, or a string, which stands for its UTF-8
/// bytes. The type parameter only keeps impls apart: no method uses it.
pub trait IntoBytes<T>: Sized {
    /// The bytes that the value stands for.
    spec fn bytes(self) -> Seq<u8>;

    /// Turns the value into its bytes.
    fn into_bytes(self) -> (bytes: Vec<u8>)
        ensures
            bytes@ == self.bytes(),
    ;
}

/// A wrapper that stands for the bytes of the value inside it.
pub struct BytesWrapper<T>(pub T);

impl IntoBytes<Vec<u8>> for Vec<u8> {
    open spec fn bytes(self) -> Seq<u8> {
        self@
    }

    fn into_bytes(self) -> (bytes: Vec<u8>) {
        self
    }
}

impl<'a> IntoBytes<&'a [u8]> for &'a [u8] {
    open spec fn bytes(self) -> Seq<u8> {
        self@
    }

    fn into_bytes(self) -> (bytes: Vec<u8>) {
        slice_to_vec(self)
    }
}

impl<'a> IntoBytes<&'a Vec<u8>> for &'a Vec<u8> {
    open spec fn bytes(self) -> Seq<u8> {
        self@
    }

    fn into_bytes(self) -> (bytes: Vec<u8>) {
        slice_to_vec(self.as_slice())
    }
}

impl<const N: usize> IntoBytes<[u8; N]> for [u8; N] {
    open spec fn bytes(self) -> Seq<u8> {
        self@
    }

    fn into_bytes(self) -> (bytes: Vec<u8>) {
        slice_to_vec(self.as_slice())
    }
}

impl<'a, const N: usize> IntoBytes<&'a [u8; N]> for &'a [u8; N] {
    open spec fn bytes(self) -> Seq<u8> {
        self@
    }

    fn into_bytes(self) -> (bytes: Vec<u8>) {
        slice_to_vec(self.as_slice())
    }
}

impl<'a> IntoBytes<&'a str> for &'a str {
    open spec fn bytes(self) -> Seq<u8> {
        encode_utf8(self@)
    }

    fn into_bytes(self) -> (bytes: Vec<u8>) {
        slice_to_vec(self.as_bytes())
    }
}

impl IntoBytes<String> for String {
    open spec fn bytes(self) -> Seq<u8> {
        encode_utf8(self@)
    }

    fn into_bytes(self) -> (bytes: Vec<u8>) {
        slice_to_vec(self.as_str().as_bytes())
    }
}

impl<'a> IntoBytes<&'a String> for &'a String {
    open spec fn bytes(self) -> Seq<u8> {
        encode_utf8(self@)
    }

    fn into_bytes(self) -> (bytes: Vec<u8>) {
        slice_to_vec(self.as_str().as_bytes())
    }
}

impl<T: IntoBytes<U>, U> IntoBytes<U> for BytesWrapper<T> {
    open spec fn bytes(self) -> Seq<u8> {
        self.0.bytes()
    }

    fn into_bytes(self) -> (bytes: Vec<u8>) {
        self.0.into_bytes()
    }
}

/// The bytes that an input of `encrypt` or `decrypt` stands for.
pub open spec fn input_bytes<T, U>(input: T) -> Seq<u8> where
    BytesWrapper<BytesWrapper<T>>: IntoBytes<U>,
 {
    BytesWrapper(BytesWrapper(input)).bytes()
}

/// The ciphertext is as long as the padded plaintext: a multiple of 16, at
/// least 16, and a whole block longer than a plaintext whose length is a
/// multiple of 16 already.
pub proof fn lemma_encrypt_len(key: Seq<u8>, plaintext: Seq<u8>)
    ensures
        encrypt_spec(key, plaintext).len() == plaintext.len() + padding_len(plaintext.len()),
        encrypt_spec(key, plaintext).len() % 16 == 0,
        encrypt_spec(key, plaintext).len() >= 16,
        plaintext.len() % 16 == 0 ==> encrypt_spec(key, plaintext).len() == plaintext.len() + 16,
{
    lemma_pad_len(plaintext);
}

/// Decryption undoes encryption wherever the cipher's decryption of the
/// encrypted blocks gives the padded plaintext back.
pub proof fn lemma_decrypt_encrypt(key: Seq<u8>, plaintext: Seq<u8>)
    requires
        ecb_decrypt(key, encrypt_spec(key, plaintext)) == pad_spec(plaintext),
    ensures
        decrypt_spec(key, encrypt_spec(key, plaintext)) == Ok::<Seq<u8>, CryptorError>(plaintext),
{
    lemma_pad_len(plaintext);
    lemma_unpad_pad(plaintext);
}

/// A ciphertext is refused for its length exactly when that length is no
/// multiple of 16.
pub proof fn lemma_malformed_length(key: Seq<u8>, ciphertext: Seq<u8>)
    ensures
        ciphertext.len() % 16 != 0 <==> decrypt_spec(key, ciphertext) == Err::<
            Seq<u8>,
            CryptorError,
        >(CryptorError::MalformedLength),
{
}

/// A ciphertext whose decrypted blocks end in a byte above 16 is refused,
/// with that byte in the error.
pub proof fn lemma_tail_above_16_refused(key: Seq<u8>, ciphertext: Seq<u8>)
    ensures
        ciphertext.len() > 0 && ciphertext.len() % 16 == 0 && ecb_decrypt(key, ciphertext).last()
            > 16 ==> decrypt_spec(key, ciphertext) == Err::<Seq<u8>, CryptorError>(
            CryptorError::InvalidPadding(ecb_decrypt(key, ciphertext).last()),
        ),
{
}

/// The 32 bytes of `key_material` as a key.
pub(crate) fn key_array(key_material: &[u8]) -> (key: [u8; 32])
    requires
        key_material@.len() == 32,
    ensures
        key@ == key_material@,
{
    let mut key: [u8; 32] = [0u8; 32];
    let mut i: usize = 0;
    while i < 32
        invariant
            i <= 32,
            key_material@.len() == 32,
            forall|k: int| 0 <= k < i ==> key[k] == key_material[k],
        decreases 32 - i,
    {
        key[i] = key_material[i];
        i = i + 1;
    }
    assert(key@ =~= key_material@);
    key
}

/// An AES-256 cryptor. It holds its 32 key bytes and the cipher made from
/// them, and never changes after construction.
#[derive(Debug)]
pub struct Aes256Cryptor {
    key: [u8; 32],
    aes_256: Aes256,
}

impl View for Aes256Cryptor {
    type V = Seq<u8>;

    /// A cryptor is modelled by its key bytes.
    closed spec fn view(&self) -> Seq<u8> {
        self.key@
    }
}

impl<'a> TryFrom<&'a str> for Aes256Cryptor {
    type Error = CryptorError;

    /// A cryptor whose key is the bytes of `value`, which have to be 32.
    fn try_from(value: &'a str) -> (res: Result<Self, CryptorError>)
        ensures
            match res {
                Ok(cryptor) => encode_utf8(value@).len() == 32 && cryptor@ == encode_utf8(value@),
                Err(e) => encode_utf8(value@).len() != 32 && e == CryptorError::InvalidKeyLength,
            },
    {
        Aes256Cryptor::try_from_bytes(value.as_bytes())
    }
}

impl<'a> TryFromSpecImpl<&'a str> for Aes256Cryptor {
    /// The cipher inside a cryptor has no value in specifications, so no
    /// spec function gives the result: the contract of `try_from` says what
    /// it is.
    open spec fn obeys_try_from_spec() -> bool {
        false
    }

    open spec fn try_from_spec(value: &'a str) -> Result<Self, CryptorError> {
        arbitrary()
    }
}

impl TryFrom<String> for Aes256Cryptor {
    type Error = CryptorError;

    /// A cryptor whose key is the bytes of `value`, which have to be 32.
    fn try_from(value: String) -> (res: Result<Self, CryptorError>)
        ensures
            match res {
                Ok(cryptor) => encode_utf8(value@).len() == 32 && cryptor@ == encode_utf8(value@),
                Err(e) => encode_utf8(value@).len() != 32 && e == CryptorError::InvalidKeyLength,
            },
    {
        Aes256Cryptor::try_from_bytes(value.as_str().as_bytes())
    }
}

impl TryFromSpecImpl<String> for Aes256Cryptor {
    /// As for `&str`: the contract of `try_from` says what the result is.
    open spec fn obeys_try_from_spec() -> bool {
        false
    }

    open spec fn try_from_spec(value: String) -> Result<Self, CryptorError> {
        arbitrary()
    }
}

impl<'a> TryFrom<&'a String> for Aes256Cryptor {
    type Error = CryptorError;

    /// A cryptor whose key is the bytes of `value`, which have to be 32.
    fn try_from(value: &'a String) -> (res: Result<Self, CryptorError>)
        ensures
            match res {
                Ok(cryptor) => encode_utf8(value@).len() == 32 && cryptor@ == encode_utf8(value@),
                Err(e) => encode_utf8(value@).len() != 32 && e == CryptorError::InvalidKeyLength,
            },
    {
        Aes256Cryptor::try_from_bytes(value.as_str().as_bytes())
    }
}

impl<'a> TryFromSpecImpl<&'a String> for Aes256Cryptor {
    /// As for `&str`: the contract of `try_from` says what the result is.
    open spec fn obeys_try_from_spec() -> bool {
        false
    }

    open spec fn try_from_spec(value: &'a String) -> Result<Self, CryptorError> {
        arbitrary()
    }
}

impl Clone for Aes256Cryptor {
    /// A cryptor for the same key.
    fn clone(&self) -> (copy: Self)
        ensures
            copy@ == self@,
    {
        proof {
            use_type_invariant(self);
        }
        Self { key: self.key, aes_256: self.aes_256.clone() }
    }
}

impl Aes256Cryptor {
    /// The cipher works under the key that is held beside it.
    #[verifier::type_invariant]
    spec fn well_formed(self) -> bool {
        cipher_key(self.aes_256) == self.key@
    }

    /// A cryptor for the given key.
    pub fn new(key: [u8; 32]) -> (cryptor: Self)
        ensures
            cryptor@ == key@,
    {
        let aes_256 = new_cipher(&key);
        Self { key, aes_256 }
    }

    /// A cryptor for key material of any length, which has to be 32 bytes.
    pub fn try_from_bytes(key_material: &[u8]) -> (res: Result<Self, CryptorError>)
        ensures
            match res {
                Ok(cryptor) => key_material@.len() == 32 && cryptor@ == key_material@,
                Err(e) => key_material@.len() != 32 && e == CryptorError::InvalidKeyLength,
            },
    {
        if key_material.len() != 32 {
            return Err(CryptorError::InvalidKeyLength);
        }
        Ok(Aes256Cryptor::new(key_array(key_material)))
    }

    /// The key bytes.
    pub fn key(&self) -> (key: &[u8])
        ensures
            key@ == self@,
    {
        &self.key
    }

    /// Encrypts `plaintext`: pads it, encrypts each block, and joins the
    /// blocks in order. Decrypting the result under the same key gives the
    /// plaintext back.
    pub fn encrypt<T, U>(&self, plaintext: T) -> (ciphertext: Vec<u8>) where
        BytesWrapper<BytesWrapper<T>>: IntoBytes<U>,

        ensures
            ciphertext@ == encrypt_spec(self@, input_bytes::<T, U>(plaintext)),
            decrypt_spec(self@, ciphertext@) == Ok::<Seq<u8>, CryptorError>(
                input_bytes::<T, U>(plaintext),
            ),
            ciphertext@.len() == input_bytes::<T, U>(plaintext).len() + padding_len(
                input_bytes::<T, U>(plaintext).len(),
            ),
            ciphertext@.len() % 16 == 0,
            ciphertext@.len() >= 16,
    {
        let data = BytesWrapper(BytesWrapper(plaintext)).into_bytes();
        let ghost bytes = data@;
        let mut blocks = pad(data);
        encrypt_blocks(&self.aes_256, &mut blocks);
        proof {
            use_type_invariant(self);
            lemma_encrypt_len(self@, bytes);
            lemma_decrypt_encrypt(self@, bytes);
        }
        join_blocks(&blocks)
    }

    /// Decrypts `ciphertext`: refuses a length that is no multiple of 16,
    /// decrypts each block, and removes the padding.
    pub fn decrypt<T, U>(&self, ciphertext: T) -> (res: Result<Vec<u8>, CryptorError>) where
        BytesWrapper<BytesWrapper<T>>: IntoBytes<U>,

        ensures
            is_outcome(res, decrypt_spec(self@, input_bytes::<T, U>(ciphertext))),
            input_bytes::<T, U>(ciphertext).len() % 16 != 0 <==> res == Err::<
                Vec<u8>,
                CryptorError,
            >(CryptorError::MalformedLength),
    {
        let raw_bytes = BytesWrapper(BytesWrapper(ciphertext)).into_bytes();
        if raw_bytes.len() % 16 != 0 {
            return Err(CryptorError::MalformedLength);
        }
        let mut blocks = into_blocks(raw_bytes, true);
        decrypt_blocks(&self.aes_256, &mut blocks);
        proof {
            use_type_invariant(self);
        }
        match unpad(&blocks) {
            Ok(plaintext) => Ok(plaintext),
            Err(e) => Err(CryptorError::from(e)),
        }
    }
}

} // verus!
