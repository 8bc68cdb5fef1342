//! The ways in which a conversion can fail.

use vstd::prelude::*;

verus! {

/// Why a block of ciphertext could not be decrypted.
#[derive(Clone, Copy, Debug, PartialEq, Eq, Structural)]
pub enum CipherError {
    /// The ciphertext is not a whole number of 16-byte blocks.
    InvalidLength,
    /// The plaintext does not end in well-formed padding.
    InvalidPadding,
}

/// Why a container could not be converted.
#[derive(Clone, Copy, Debug, PartialEq, Eq, Structural)]
pub enum DumpError {
    /// The input does not start with the container's magic bytes.
    InvalidMagic,
    /// A field or a blob of declared length reaches past the end of the input.
    TruncatedInput,
    /// The key blob could not be decrypted.
    Cipher(CipherError),
    /// The decrypted key blob is too short to hold its header and one key byte.
    KeyMaterialTooShort,
    /// The metadata blob is present but cannot be decoded, decrypted or read
    /// as a track record.
    MalformedMetadata,
    /// The decrypted metadata is not valid UTF-8.
    Utf8DecodeError,
}

} // verus!
