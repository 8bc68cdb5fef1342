//! The key box: a 256-entry substitution table derived from the recovered key.
//!
//! The table starts as the identity and is changed by 256 swaps. The target of
//! each swap depends on the entry at the current position, on the target of the
//! swap before it and on one key byte, so the order of the steps is part of the
//! definition.

use crate::cipher::{decrypt, decrypted, AES_CORE_KEY};
use crate::container::{deobfuscate, deobfuscated};
use crate::error::DumpError;
use vstd::prelude::*;
use vstd::slice::{slice_subrange, slice_to_vec};

verus! {

/// The constant that every byte of the key blob is combined with.
pub const KEY_MASK: u8 = 0x64;

/// Length of the header in front of the key in the decrypted key blob.
pub const KEY_HEADER_LEN: usize = 17;

/// The table before the first swap: entry `i` holds `i`.
pub open spec fn identity_table() -> Seq<u8> {
    Seq::new(256, |i: int| i as u8)
}

/// `table` with the entries at `i` and `j` exchanged.
pub open spec fn swap_entries(table: Seq<u8>, i: int, j: int) -> Seq<u8> {
    table.update(i, table[j]).update(j, table[i])
}

/// The position that step `i` swaps with position `i`, where `last` is the
/// target of the step before (0 at the first step).
pub open spec fn swap_target(table: Seq<u8>, last: int, key: Seq<u8>, i: int) -> int {
    (table[i] + last + key[i % (key.len() as int)]) % 256
}

/// The table and the last swap target after the first `steps` steps of the
/// schedule under `key`.
pub open spec fn schedule(key: Seq<u8>, steps: nat) -> (Seq<u8>, int)
    decreases steps,
{
    if steps == 0 {
        (identity_table(), 0)
    } else {
        let before = schedule(key, (steps - 1) as nat);
        let target = swap_target(before.0, before.1, key, steps - 1);
        (swap_entries(before.0, steps - 1, target), target)
    }
}

/// The key box of `key`: the table after all 256 steps.
pub open spec fn key_box(key: Seq<u8>) -> Seq<u8> {
    schedule(key, 256).0
}

/// `table` has 256 entries and holds each byte value at exactly one position.
pub open spec fn is_permutation(table: Seq<u8>) -> bool {
    &&& table.len() == 256
    &&& forall|v: u8| #[trigger] table.contains(v)
    &&& forall|i: int, j: int| 0 <= i < j < 256 ==> table[i] != table[j]
}

/// The identity table is a permutation.
pub proof fn lemma_identity_is_permutation()
    ensures
        is_permutation(identity_table()),
{
    let t = identity_table();
    assert forall|v: u8| #[trigger] t.contains(v) by {
        assert(t[v as int] == v);
    }
}

/// Exchanging two entries of a permutation gives a permutation.
pub proof fn lemma_swap_keeps_permutation(table: Seq<u8>, i: int, j: int)
    requires
        is_permutation(table),
        0 <= i < 256,
        0 <= j < 256,
    ensures
        is_permutation(swap_entries(table, i, j)),
{
    let t = swap_entries(table, i, j);
    assert forall|v: u8| #[trigger] t.contains(v) by {
        assert(table.contains(v));
        let k = choose|k: int| 0 <= k < 256 && table[k] == v;
        if k == i {
            assert(t[j] == v);
        } else if k == j {
            assert(t[i] == v);
        } else {
            assert(t[k] == v);
        }
    }
    assert forall|a: int, b: int| 0 <= a < b < 256 implies t[a] != t[b] by {
        let pa = if a == i { j } else if a == j { i } else { a };
        let pb = if b == i { j } else if b == j { i } else { b };
        assert(t[a] == table[pa]);
        assert(t[b] == table[pb]);
        assert(pa != pb);
        if pa < pb {
            assert(table[pa] != table[pb]);
        } else {
            assert(table[pb] != table[pa]);
        }
    }
}

/// After any number of steps up to 256 the table is a permutation and the last
/// swap target is a position of the table.
pub proof fn lemma_schedule_is_permutation(key: Seq<u8>, steps: nat)
    requires
        key.len() > 0,
        steps <= 256,
    ensures
        is_permutation(schedule(key, steps).0),
        0 <= schedule(key, steps).1 < 256,
    decreases steps,
{
    if steps == 0 {
        lemma_identity_is_permutation();
    } else {
        lemma_schedule_is_permutation(key, (steps - 1) as nat);
        let before = schedule(key, (steps - 1) as nat);
        let target = swap_target(before.0, before.1, key, steps - 1);
        lemma_swap_keeps_permutation(before.0, steps - 1, target);
    }
}

/// The key box of every non-empty key holds each byte value exactly once.
pub proof fn lemma_key_box_is_permutation(key: Seq<u8>)
    requires
        key.len() > 0,
    ensures
        is_permutation(key_box(key)),
{
    lemma_schedule_is_permutation(key, 256);
}

/// Builds the key box of `key`.
pub fn build_key_box(key: &[u8]) -> (table: [u8; 256])
    requires
        key@.len() > 0,
    ensures
        table@ == key_box(key@),
        is_permutation(table@),
{
    let key_len: usize = key.len();
    let mut table: [u8; 256] = [0u8; 256];
    let mut i: usize = 0;
    while i < 256
        invariant
            i <= 256,
            table@.len() == 256,
            forall|k: int| 0 <= k < i ==> table@[k] == k as u8,
        decreases 256 - i,
    {
        table[i] = i as u8;
        i += 1;
    }
    assert(table@ =~= identity_table());

    let mut last: usize = 0;
    let mut i: usize = 0;
    while i < 256
        invariant
            i <= 256,
            key_len == key@.len(),
            key_len > 0,
            table@.len() == 256,
            last < 256,
            (table@, last as int) == schedule(key@, i as nat),
        decreases 256 - i,
    {
        let target: usize = (table[i] as usize + last + key[i % key_len] as usize) % 256;
        let here: u8 = table[i];
        let there: u8 = table[target];
        table[i] = there;
        table[target] = here;
        proof {
            let before = schedule(key@, i as nat);
            assert(target as int == swap_target(before.0, before.1, key@, i as int));
            assert(table@ =~= swap_entries(before.0, i as int, target as int));
        }
        last = target;
        i += 1;
    }
    proof {
        lemma_key_box_is_permutation(key@);
    }
    table
}

/// The key in the decrypted key blob: what follows the 17-byte header, which
/// must be at least one byte.
pub open spec fn key_of_material(material: Seq<u8>) -> Result<Seq<u8>, DumpError> {
    if material.len() < 18 {
        Err(DumpError::KeyMaterialTooShort)
    } else {
        Ok(material.skip(17))
    }
}

/// The key that a key blob holds under its obfuscation and encryption.
pub open spec fn recovered_key(key_blob: Seq<u8>) -> Result<Seq<u8>, DumpError> {
    match decrypted(deobfuscated(key_blob, 0x64), AES_CORE_KEY@) {
        Err(e) => Err(DumpError::Cipher(e)),
        Ok(material) => key_of_material(material),
    }
}

/// Every recovered key has at least one byte.
pub proof fn lemma_recovered_key_is_not_empty(key_blob: Seq<u8>)
    ensures
        recovered_key(key_blob) matches Ok(key) ==> key.len() > 0,
{
}

/// Takes the key out of the decrypted key blob.
pub fn key_from_material(material: &[u8]) -> (r: Result<Vec<u8>, DumpError>)
    ensures
        match r {
            Ok(key) => key_of_material(material@) == Ok::<Seq<u8>, DumpError>(key@) && key@.len()
                > 0,
            Err(e) => key_of_material(material@) == Err::<Seq<u8>, DumpError>(e),
        },
{
    if material.len() <= KEY_HEADER_LEN {
        return Err(DumpError::KeyMaterialTooShort);
    }
    Ok(slice_to_vec(slice_subrange(material, KEY_HEADER_LEN, material.len())))
}

/// Recovers the key from the key blob of a container.
pub fn recover_key(key_blob: &[u8]) -> (r: Result<Vec<u8>, DumpError>)
    ensures
        match r {
            Ok(key) => recovered_key(key_blob@) == Ok::<Seq<u8>, DumpError>(key@) && key@.len()
                > 0,
            Err(e) => recovered_key(key_blob@) == Err::<Seq<u8>, DumpError>(e),
        },
{
    let clear: Vec<u8> = deobfuscate(key_blob, KEY_MASK);
    match decrypt(clear.as_slice(), &AES_CORE_KEY) {
        Ok(material) => key_from_material(material.as_slice()),
        Err(e) => Err(DumpError::Cipher(e)),
    }
}

} // verus!
