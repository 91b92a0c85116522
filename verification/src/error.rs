//! The failures that the codec and the cryptor report.

use vstd::prelude::*;
use vstd::std_specs::convert::FromSpecImpl;

verus! {

/// Why a decrypted buffer could not be unpadded.
#[derive(Clone, Copy, Debug, PartialEq, Eq, Structural)]
pub enum PaddingError {
    /// The buffer holds no byte at all; a padded buffer never does.
    EmptyInput,
    /// The last byte is no padding count: it is above 16, or it is 16 while
    /// the last 16 bytes are not all 16.
    InvalidPadding(u8),
}

/// Why a cryptor could not be built or a ciphertext could not be decrypted.
#[derive(Clone, Copy, Debug, PartialEq, Eq, Structural)]
pub enum CryptorError {
    /// The key material is not exactly 32 bytes long.
    InvalidKeyLength,
    /// The ciphertext length is not a multiple of 16.
    MalformedLength,
    /// The decrypted buffer is empty.
    EmptyInput,
    /// The decrypted buffer does not end in a valid padding.
    InvalidPadding(u8),
}

/// Whether `res` is the outcome `model`: the same error, or a vector that
/// holds the bytes of `model`.
pub open spec fn is_outcome<E>(res: Result<Vec<u8>, E>, model: Result<Seq<u8>, E>) -> bool {
    match (res, model) {
        (Ok(bytes), Ok(expected)) => bytes@ == expected,
        (Err(e), Err(expected)) => e == expected,
        _ => false,
    }
}

impl CryptorError {
    /// The cryptor error that stands for a padding error.
    pub open spec fn of_padding(e: PaddingError) -> CryptorError {
        match e {
            PaddingError::EmptyInput => CryptorError::EmptyInput,
            PaddingError::InvalidPadding(v) => CryptorError::InvalidPadding(v),
        }
    }
}

impl From<PaddingError> for CryptorError {
    /// The cryptor error of the same name.
    fn from(e: PaddingError) -> (r: CryptorError) {
        match e {
            PaddingError::EmptyInput => CryptorError::EmptyInput,
            PaddingError::InvalidPadding(v) => CryptorError::InvalidPadding(v),
        }
    }
}

impl FromSpecImpl<PaddingError> for CryptorError {
    open spec fn obeys_from_spec() -> bool {
        true
    }

    open spec fn from_spec(e: PaddingError) -> CryptorError {
        CryptorError::of_padding(e)
    }
}

} // verus!
