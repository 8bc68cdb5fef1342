//! The stream cipher that protects the audio payload.
//!
//! The payload is encrypted in chunks of 0x8000 bytes. Each byte is combined
//! with a keystream byte that depends on the key box and on the byte's offset
//! within its chunk, never on the chunk's place in the payload.

use vstd::prelude::*;
use vstd::slice::{slice_subrange, slice_to_vec};

verus! {

/// Length of a chunk of the audio payload, fixed by the format.
pub const CHUNK_LEN: usize = 0x8000;

/// The keystream byte for the byte at `offset` within its chunk.
pub open spec fn keystream_byte(table: Seq<u8>, offset: int) -> u8 {
    let j = (offset + 1) % 256;
    let a = table[j] as int;
    table[(a + table[(a + j) % 256]) % 256]
}

/// One chunk after decryption: each byte combined with the keystream byte of
/// its offset.
pub open spec fn chunk_decrypted(chunk: Seq<u8>, table: Seq<u8>) -> Seq<u8> {
    Seq::new(chunk.len(), |i: int| chunk[i] ^ keystream_byte(table, i))
}

/// The chunk of `payload` with the given number: the bytes from
/// `number * 0x8000` up to the next chunk or the end of the payload.
pub open spec fn chunk_of(payload: Seq<u8>, number: int) -> Seq<u8> {
    let start = number * 0x8000;
    let end = if start + 0x8000 <= payload.len() {
        start + 0x8000
    } else {
        payload.len() as int
    };
    payload.subrange(start, end)
}

/// A whole payload after decryption: as long as the payload, and each byte
/// combined with the keystream byte of its offset within its chunk.
pub open spec fn payload_decrypted(payload: Seq<u8>, table: Seq<u8>) -> Seq<u8> {
    Seq::new(payload.len(), |i: int| payload[i] ^ keystream_byte(table, i % 0x8000))
}

/// Two chunks of equal length are decrypted with the same keystream: what
/// decryption changes in a byte depends on the key box and on the byte's
/// offset in its chunk alone.
pub proof fn lemma_keystream_is_chunk_local(first: Seq<u8>, second: Seq<u8>, table: Seq<u8>)
    requires
        first.len() == second.len(),
    ensures
        forall|i: int|
            0 <= i < first.len() ==> #[trigger] chunk_decrypted(first, table)[i] ^ first[i]
                == chunk_decrypted(second, table)[i] ^ second[i],
        forall|i: int|
            0 <= i < first.len() ==> #[trigger] chunk_decrypted(first, table)[i] ^ first[i]
                == keystream_byte(table, i),
{
    assert forall|i: int| 0 <= i < first.len() implies #[trigger] chunk_decrypted(first, table)[i]
        ^ first[i] == keystream_byte(table, i) && chunk_decrypted(second, table)[i] ^ second[i]
        == keystream_byte(table, i) by {
        let k = keystream_byte(table, i);
        let a = first[i];
        let b = second[i];
        assert((a ^ k) ^ a == k) by (bit_vector);
        assert((b ^ k) ^ b == k) by (bit_vector);
    }
}

/// Decrypting a payload is decrypting each of its chunks on its own: chunk
/// `number` of the decrypted payload is the decryption of chunk `number` of
/// the payload.
pub proof fn lemma_payload_is_decrypted_by_chunks(payload: Seq<u8>, table: Seq<u8>, number: int)
    requires
        0 <= number,
        number * 0x8000 <= payload.len(),
    ensures
        chunk_of(payload_decrypted(payload, table), number) == chunk_decrypted(
            chunk_of(payload, number),
            table,
        ),
{
    let start = number * 0x8000;
    let whole = payload_decrypted(payload, table);
    let left = chunk_of(whole, number);
    let right = chunk_decrypted(chunk_of(payload, number), table);
    assert(left.len() == right.len());
    assert forall|i: int| 0 <= i < left.len() implies left[i] == right[i] by {
        assert((start + i) % 0x8000 == i) by (nonlinear_arith)
            requires
                start == number * 0x8000,
                0 <= i < 0x8000,
        ;
    }
    assert(left =~= right);
}

/// Decrypts one chunk in place.
pub fn decrypt_in_place(chunk: &mut [u8], key_box: &[u8; 256])
    requires
        old(chunk)@.len() <= CHUNK_LEN,
    ensures
        final(chunk)@ == chunk_decrypted(old(chunk)@, key_box@),
{
    let len: usize = chunk.len();
    let mut i: usize = 0;
    while i < len
        invariant
            i <= len,
            len <= CHUNK_LEN,
            len == chunk@.len(),
            chunk@.len() == old(chunk)@.len(),
            forall|k: int| 0 <= k < i ==> chunk@[k] == old(chunk)@[k] ^ keystream_byte(key_box@, k),
            forall|k: int| i <= k < len ==> chunk@[k] == old(chunk)@[k],
        decreases len - i,
    {
        let j: usize = (i + 1) % 256;
        let a: usize = key_box[j] as usize;
        let b: usize = key_box[(a + j) % 256] as usize;
        let k: u8 = key_box[(a + b) % 256];
        let byte: u8 = chunk[i];
        chunk[i] = byte ^ k;
        i += 1;
    }
    assert(chunk@ =~= chunk_decrypted(old(chunk)@, key_box@));
}

/// Decrypts a whole audio payload, chunk by chunk. The last chunk may be
/// short; the result is exactly as long as the payload.
pub fn decrypt_payload(payload: &[u8], key_box: &[u8; 256]) -> (audio: Vec<u8>)
    ensures
        audio@ == payload_decrypted(payload@, key_box@),
{
    let len: usize = payload.len();
    let mut audio: Vec<u8> = Vec::with_capacity(len);
    let mut start: usize = 0;
    while start < len
        invariant
            start <= len,
            len == payload@.len(),
            start % 0x8000 == 0 || start == len,
            audio@ == payload_decrypted(payload@, key_box@).take(start as int),
        decreases len - start,
    {
        let end: usize = if len - start > CHUNK_LEN {
            start + CHUNK_LEN
        } else {
            len
        };
        let mut buffer: Vec<u8> = slice_to_vec(slice_subrange(payload, start, end));
        decrypt_in_place(buffer.as_mut_slice(), key_box);
        proof {
            let whole = payload_decrypted(payload@, key_box@);
            assert forall|i: int| 0 <= i < end - start implies buffer@[i] == whole[start + i] by {
                assert((start + i) % 0x8000 == i);
            }
            assert(audio@ + buffer@ =~= whole.take(end as int));
        }
        audio.append(&mut buffer);
        start = end;
    }
    assert(audio@ =~= payload_decrypted(payload@, key_box@));
    audio
}

} // verus!
