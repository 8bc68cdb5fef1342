//! The layout of a container: magic bytes, the key blob, the metadata blob,
//! the cover image and the audio payload, read in one forward pass.
//!
//! | field        | size      |                                         |
//! |--------------|-----------|-----------------------------------------|
//! | magic        | 8         | `CTENFDAM`                              |
//! | gap          | 2         | ignored                                 |
//! | key length   | 4         | little-endian                           |
//! | key blob     | as stated | obfuscated and encrypted                |
//! | meta length  | 4         | little-endian                           |
//! | meta blob    | as stated | obfuscated, encoded and encrypted       |
//! | gap          | 9         | ignored                                 |
//! | cover length | 4         | little-endian                           |
//! | cover        | as stated | image bytes                             |
//! | audio        | the rest  | encrypted chunk by chunk                |

use crate::error::DumpError;
use byteorder::ByteOrder;
use vstd::prelude::*;
use vstd::slice::{slice_subrange, slice_to_vec};

verus! {

/// Offset of the key blob's length prefix.
pub const KEY_LEN_OFFSET: usize = 10;

/// Number of ignored bytes between the metadata blob and the cover's length
/// prefix.
pub const COVER_GAP: usize = 9;

/// The eight bytes every container starts with.
pub open spec fn magic() -> Seq<u8> {
    seq![0x43u8, 0x54u8, 0x45u8, 0x4Eu8, 0x46u8, 0x44u8, 0x41u8, 0x4Du8]
}

/// `input` starts with the magic bytes.
pub open spec fn has_magic(input: Seq<u8>) -> bool {
    input.len() >= 8 && input.take(8) == magic()
}

/// The number that four bytes denote, least significant byte first.
pub open spec fn le_u32(bytes: Seq<u8>) -> int {
    bytes[0] + 0x100 * bytes[1] + 0x1_0000 * bytes[2] + 0x100_0000 * bytes[3]
}

/// The length that the prefix at `at` declares.
pub open spec fn declared_len(input: Seq<u8>, at: int) -> int {
    le_u32(input.subrange(at, at + 4))
}

/// A length prefix stands at `at`, and the input holds as many bytes after it
/// as it declares.
pub open spec fn blob_fits(input: Seq<u8>, at: int) -> bool {
    &&& 0 <= at
    &&& at + 4 <= input.len()
    &&& at + 4 + declared_len(input, at) <= input.len()
}

/// The bytes of the blob whose length prefix stands at `at`.
pub open spec fn blob_at(input: Seq<u8>, at: int) -> Seq<u8> {
    input.subrange(at + 4, at + 4 + declared_len(input, at))
}

/// The offset of the first byte after the blob whose length prefix stands at
/// `at`.
pub open spec fn blob_end(input: Seq<u8>, at: int) -> int {
    at + 4 + declared_len(input, at)
}

/// The parts of a container, as sequences of bytes.
pub struct ContainerParts {
    pub key_blob: Seq<u8>,
    pub meta_blob: Seq<u8>,
    pub cover: Seq<u8>,
    pub audio: Seq<u8>,
}

/// The parts of a container as they stand in its file: nothing is decrypted.
#[derive(Clone, Debug, PartialEq, Eq)]
pub struct Container {
    /// The key blob, still obfuscated and encrypted.
    pub key_blob: Vec<u8>,
    /// The metadata blob, still obfuscated; empty where the container has no
    /// metadata.
    pub meta_blob: Vec<u8>,
    /// The cover image; empty where the container has none.
    pub cover: Vec<u8>,
    /// The audio payload, still encrypted.
    pub audio: Vec<u8>,
}

impl View for Container {
    type V = ContainerParts;

    open spec fn view(&self) -> ContainerParts {
        ContainerParts {
            key_blob: self.key_blob@,
            meta_blob: self.meta_blob@,
            cover: self.cover@,
            audio: self.audio@,
        }
    }
}

/// Offset of the metadata blob's length prefix.
pub open spec fn meta_len_offset(input: Seq<u8>) -> int {
    blob_end(input, 10)
}

/// Offset of the cover's length prefix.
pub open spec fn cover_len_offset(input: Seq<u8>) -> int {
    blob_end(input, meta_len_offset(input)) + 9
}

/// What reading `input` as a container gives: its parts, or the reason why it
/// is not one. An input that does not start with the magic bytes is rejected
/// for that, whatever follows; one that ends before a length prefix or inside
/// a blob is truncated.
pub open spec fn parsed(input: Seq<u8>) -> Result<ContainerParts, DumpError> {
    if !has_magic(input) {
        Err(DumpError::InvalidMagic)
    } else if !blob_fits(input, 10) {
        Err(DumpError::TruncatedInput)
    } else if !blob_fits(input, meta_len_offset(input)) {
        Err(DumpError::TruncatedInput)
    } else if !blob_fits(input, cover_len_offset(input)) {
        Err(DumpError::TruncatedInput)
    } else {
        Ok(
            ContainerParts {
                key_blob: blob_at(input, 10),
                meta_blob: blob_at(input, meta_len_offset(input)),
                cover: blob_at(input, cover_len_offset(input)),
                audio: input.skip(blob_end(input, cover_len_offset(input))),
            },
        )
    }
}

/// `blob` with every byte combined with `mask`.
pub open spec fn deobfuscated(blob: Seq<u8>, mask: u8) -> Seq<u8> {
    Seq::new(blob.len(), |i: int| blob[i] ^ mask)
}

/// Removes the obfuscation from a blob: combines every byte with `mask`.
pub fn deobfuscate(blob: &[u8], mask: u8) -> (clear: Vec<u8>)
    ensures
        clear@ == deobfuscated(blob@, mask),
{
    let len: usize = blob.len();
    let mut clear: Vec<u8> = Vec::with_capacity(len);
    let mut i: usize = 0;
    while i < len
        invariant
            i <= len,
            len == blob@.len(),
            clear@.len() == i,
            forall|k: int| 0 <= k < i ==> clear@[k] == blob@[k] ^ mask,
        decreases len - i,
    {
        clear.push(blob[i] ^ mask);
        i += 1;
    }
    assert(clear@ =~= deobfuscated(blob@, mask));
    clear
}

/// Calls `byteorder::LittleEndian::read_u32`.
///
/// Trusted: it reads the first four bytes of `buf` as a number, least
/// significant byte first. It panics on a shorter buffer, which `requires`
/// leaves out.
#[verifier::external_body]
fn read_u32_le(buf: &[u8]) -> (value: u32)
    requires
        buf@.len() >= 4,
    ensures
        value == le_u32(buf@),
{
    byteorder::LittleEndian::read_u32(buf)
}

/// Tells whether `input` starts with the magic bytes, read as two numbers.
pub fn check_magic(input: &[u8]) -> (ok: bool)
    ensures
        ok == has_magic(input@),
{
    if input.len() < 8 {
        return false;
    }
    let first: u32 = read_u32_le(slice_subrange(input, 0, 4));
    let second: u32 = read_u32_le(slice_subrange(input, 4, 8));
    proof {
        let head = input@.take(8);
        let m = magic();
        assert(m.len() == 8);
        assert(m[0] == 0x43 && m[1] == 0x54 && m[2] == 0x45 && m[3] == 0x4E);
        assert(m[4] == 0x46 && m[5] == 0x44 && m[6] == 0x41 && m[7] == 0x4D);
        let a = input@.subrange(0, 4);
        let b = input@.subrange(4, 8);
        assert(a[0] == head[0] && a[1] == head[1] && a[2] == head[2] && a[3] == head[3]);
        assert(b[0] == head[4] && b[1] == head[5] && b[2] == head[6] && b[3] == head[7]);
        if first == 0x4E45_5443 && second == 0x4D41_4446 {
            assert(head =~= m);
        }
    }
    first == 0x4E45_5443 && second == 0x4D41_4446
}

/// Reads the length-prefixed blob at `at`, if the input holds all of it.
fn read_blob(input: &[u8], at: usize) -> (r: Option<(Vec<u8>, usize)>)
    ensures
        r is Some <==> blob_fits(input@, at as int),
        r matches Some((blob, end)) ==> blob@ == blob_at(input@, at as int) && end == blob_end(
            input@,
            at as int,
        ) && end <= input@.len(),
{
    let len: usize = input.len();
    if at > len || len - at < 4 {
        return None;
    }
    let declared: u32 = read_u32_le(slice_subrange(input, at, at + 4));
    let start: usize = at + 4;
    if declared as u64 > (len - start) as u64 {
        return None;
    }
    let end: usize = start + declared as usize;
    Some((slice_to_vec(slice_subrange(input, start, end)), end))
}

/// Splits a container into its parts.
pub fn parse_container(input: &[u8]) -> (r: Result<Container, DumpError>)
    ensures
        match r {
            Ok(container) => parsed(input@) == Ok::<ContainerParts, DumpError>(container@),
            Err(e) => parsed(input@) == Err::<ContainerParts, DumpError>(e),
        },
{
    if !check_magic(input) {
        return Err(DumpError::InvalidMagic);
    }
    let (key_blob, meta_at) = match read_blob(input, KEY_LEN_OFFSET) {
        Some(found) => found,
        None => {
            return Err(DumpError::TruncatedInput);
        },
    };
    let (meta_blob, meta_end) = match read_blob(input, meta_at) {
        Some(found) => found,
        None => {
            return Err(DumpError::TruncatedInput);
        },
    };
    if input.len() - meta_end < COVER_GAP {
        return Err(DumpError::TruncatedInput);
    }
    let (cover, audio_at) = match read_blob(input, meta_end + COVER_GAP) {
        Some(found) => found,
        None => {
            return Err(DumpError::TruncatedInput);
        },
    };
    let audio: Vec<u8> = slice_to_vec(slice_subrange(input, audio_at, input.len()));
    Ok(Container { key_blob, meta_blob, cover, audio })
}

} // verus!
