//! AES-128 in ECB mode with the padding removed from the last block.
//!
//! The block cipher itself is the work of the `crypto` crate; the padding rule
//! is stated and checked here.

use crate::error::CipherError;
use crypto::symmetriccipher::SymmetricCipherError;
use vstd::prelude::*;

verus! {

/// Length of a cipher block and of a key, in bytes.
pub const BLOCK_LEN: usize = 16;

/// The key under which the key blob of a container is encrypted.
pub const AES_CORE_KEY: [u8; 16] = [
    0x68, 0x7A, 0x48, 0x52, 0x41, 0x6D, 0x73, 0x6F, 0x35, 0x6B, 0x49, 0x6E, 0x62, 0x61, 0x78, 0x57,
];

/// The key under which the metadata of a container is encrypted.
pub const AES_MODIFY_KEY: [u8; 16] = [
    0x23, 0x31, 0x34, 0x6C, 0x6A, 0x6B, 0x5F, 0x21, 0x5C, 0x5D, 0x26, 0x30, 0x55, 0x3C, 0x27, 0x28,
];

#[verifier::external_type_specification]
#[verifier::external_body]
pub struct ExSymmetricCipherError(crypto::symmetriccipher::SymmetricCipherError);

/// The bytes that AES-128 in ECB mode, without any padding rule, decrypts
/// `data` to under `key`, where `key` has 16 bytes and `data` is a whole
/// number of blocks.
pub uninterp spec fn aes128_ecb_blocks(key: Seq<u8>, data: Seq<u8>) -> Seq<u8>;

/// Calls `crypto::aes::ecb_decryptor` for a 128-bit key with
/// `crypto::blockmodes::NoPadding` and runs the decryptor once over all of
/// `data`, with room for as many bytes as `data` has.
///
/// Trusted: the call fails exactly when `data` is not a whole number of
/// 16-byte blocks; otherwise it yields as many bytes as it was given, and they
/// are the block-wise AES decryption of `data`.
#[verifier::external_body]
fn ecb_decrypt_blocks(data: &[u8], key: &[u8; 16]) -> (r: Result<Vec<u8>, SymmetricCipherError>)
    ensures
        r is Ok <==> data@.len() % 16 == 0,
        r matches Ok(plain) ==> plain@.len() == data@.len() && plain@ == aes128_ecb_blocks(
            key@,
            data@,
        ),
{
    let mut plain = vec![0u8; data.len()];
    let mut decryptor = crypto::aes::ecb_decryptor(
        crypto::aes::KeySize::KeySize128,
        &key[..],
        crypto::blockmodes::NoPadding,
    );
    let mut input = crypto::buffer::RefReadBuffer::new(data);
    let outcome = decryptor.decrypt(&mut input, &mut crypto::buffer::RefWriteBuffer::new(&mut plain), true);
    outcome.map(|_| plain)
}

/// `plain` ends in well-formed padding: its last byte `n` is between 1 and 16,
/// and each of its last `n` bytes is `n`.
pub open spec fn has_valid_padding(plain: Seq<u8>) -> bool {
    &&& plain.len() > 0
    &&& 1 <= plain.last() <= 16
    &&& plain.last() <= plain.len()
    &&& forall|i: int| plain.len() - plain.last() <= i < plain.len() ==> plain[i] == plain.last()
}

/// `plain` without its padding, where the padding is well formed.
pub open spec fn unpadded(plain: Seq<u8>) -> Option<Seq<u8>> {
    if has_valid_padding(plain) {
        Some(plain.take(plain.len() - plain.last()))
    } else {
        None
    }
}

/// `data` with padding added: between 1 and 16 bytes, each holding their
/// number, so that the length becomes a multiple of 16.
pub open spec fn padded(data: Seq<u8>) -> Seq<u8> {
    let n = 16 - data.len() % 16;
    data + Seq::new(n as nat, |i: int| n as u8)
}

/// What decryption under `key` makes of `data`. Data without any block
/// decrypts to nothing; otherwise the last block must end in padding.
pub open spec fn decrypted(data: Seq<u8>, key: Seq<u8>) -> Result<Seq<u8>, CipherError> {
    if data.len() % 16 != 0 {
        Err(CipherError::InvalidLength)
    } else if data.len() == 0 {
        Ok(Seq::empty())
    } else {
        match unpadded(aes128_ecb_blocks(key, data)) {
            Some(plain) => Ok(plain),
            None => Err(CipherError::InvalidPadding),
        }
    }
}

/// Padding fills up to a whole number of blocks, and removing it gives the
/// data back.
pub proof fn lemma_unpadded_padded(data: Seq<u8>)
    ensures
        padded(data).len() % 16 == 0,
        padded(data).len() > data.len(),
        unpadded(padded(data)) == Some(data),
{
    let n = 16 - data.len() % 16;
    let p = padded(data);
    assert(p.len() == data.len() + n);
    assert(p.last() == n as u8);
    assert(has_valid_padding(p));
    assert(p.take(p.len() - p.last()) =~= data);
}

/// Decryption inverts encryption: where `encrypted` is `data` padded and
/// encrypted block by block under `key`, which is to say that it is as long
/// as the padded data and its blocks decrypt to them, decrypting it gives
/// `data` back.
pub proof fn lemma_decrypt_inverts_encryption(data: Seq<u8>, key: Seq<u8>, encrypted: Seq<u8>)
    ensures
        encrypted.len() == padded(data).len() && aes128_ecb_blocks(key, encrypted) == padded(data)
            ==> decrypted(encrypted, key) == Ok::<Seq<u8>, CipherError>(data),
{
    lemma_unpadded_padded(data);
}

/// Removes the padding from `plain`.
pub fn strip_padding(plain: Vec<u8>) -> (r: Result<Vec<u8>, CipherError>)
    ensures
        match r {
            Ok(data) => unpadded(plain@) == Some(data@),
            Err(e) => unpadded(plain@) is None && e == CipherError::InvalidPadding,
        },
{
    let len: usize = plain.len();
    if len == 0 {
        return Err(CipherError::InvalidPadding);
    }
    let pad: u8 = plain[len - 1];
    if pad == 0 || pad > 16 || pad as usize > len {
        return Err(CipherError::InvalidPadding);
    }
    let keep: usize = len - pad as usize;
    let mut i: usize = keep;
    while i < len
        invariant
            keep <= i <= len,
            len == plain@.len(),
            pad == plain@.last(),
            keep == len - pad,
            forall|k: int| keep <= k < i ==> plain@[k] == pad,
        decreases len - i,
    {
        if plain[i] != pad {
            return Err(CipherError::InvalidPadding);
        }
        i += 1;
    }
    let mut data = plain;
    data.truncate(keep);
    assert(data@ =~= plain@.take(keep as int));
    Ok(data)
}

/// Decrypts `encrypted_data` under `key` and removes the padding.
///
/// The result is an error if `encrypted_data` is not a whole number of blocks
/// or if the plaintext does not end in well-formed padding. The empty input
/// has no block to take padding from and decrypts to nothing. From any other
/// input between 1 and 16 bytes of padding are removed.
pub fn decrypt(encrypted_data: &[u8], key: &[u8; 16]) -> (r: Result<Vec<u8>, CipherError>)
    ensures
        match r {
            Ok(data) => decrypted(encrypted_data@, key@) == Ok::<Seq<u8>, CipherError>(data@),
            Err(e) => decrypted(encrypted_data@, key@) == Err::<Seq<u8>, CipherError>(e),
        },
        r matches Ok(data) ==> (encrypted_data@.len() == 0 && data@.len() == 0) || (data@.len()
            < encrypted_data@.len() && encrypted_data@.len() <= data@.len() + 16),
{
    match ecb_decrypt_blocks(encrypted_data, key) {
        Ok(plain) => if plain.len() == 0 {
            assert(plain@ =~= Seq::empty());
            Ok(plain)
        } else {
            strip_padding(plain)
        },
        Err(_) => Err(CipherError::InvalidLength),
    }
}

} // verus!
