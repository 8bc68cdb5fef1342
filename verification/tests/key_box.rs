use ncmdump::keybox::{build_key_box, key_from_material, recover_key};
use ncmdump::error::{CipherError, DumpError};

fn is_permutation(table: &[u8; 256]) -> bool {
    let mut seen = [false; 256];
    for &v in table.iter() {
        if seen[v as usize] {
            return false;
        }
        seen[v as usize] = true;
    }
    seen.iter().all(|&s| s)
}

#[test]
fn key_box_of_zero_key() {
    let table = build_key_box(&[0]);
    assert_eq!(
        &table[..16],
        &[0, 35, 3, 43, 9, 11, 65, 229, 32, 36, 134, 98, 59, 34, 173, 153]
    );
    assert_eq!(
        &table[240..],
        &[209, 251, 208, 28, 111, 89, 158, 155, 243, 107, 233, 169, 117, 184, 31, 39]
    );
}

#[test]
fn key_box_of_short_key_repeats_the_key() {
    let table = build_key_box(b"abc");
    assert_eq!(
        &table[..16],
        &[104, 32, 41, 133, 243, 91, 225, 167, 154, 16, 44, 218, 21, 164, 4, 94]
    );
    assert_eq!(
        &table[240..],
        &[165, 159, 249, 39, 195, 223, 217, 13, 240, 242, 186, 151, 7, 20, 170, 100]
    );
}

#[test]
fn key_box_of_sixteen_byte_key() {
    let key: Vec<u8> = (1u8..17).collect();
    let table = build_key_box(&key);
    assert_eq!(
        &table[..16],
        &[1, 3, 33, 101, 85, 75, 45, 148, 71, 189, 108, 134, 68, 191, 162, 88]
    );
}

#[test]
fn key_box_is_a_permutation() {
    assert!(is_permutation(&build_key_box(&[0])));
    assert!(is_permutation(&build_key_box(&[255])));
    assert!(is_permutation(&build_key_box(b"abc")));
    let long: Vec<u8> = (0..1000u32).map(|i| (i * 7 + 3) as u8).collect();
    assert!(is_permutation(&build_key_box(&long)));
}

#[test]
fn key_box_uses_only_the_first_256_key_bytes() {
    let mut long: Vec<u8> = (0..300u32).map(|i| (i * 5) as u8).collect();
    let a = build_key_box(&long);
    long[299] ^= 0xFF;
    long[256] ^= 0xFF;
    let b = build_key_box(&long);
    assert_eq!(a, b);
    long[255] ^= 0xFF;
    let c = build_key_box(&long);
    assert_ne!(a, c);
}

#[test]
fn key_is_what_follows_the_header() {
    let material: Vec<u8> = (0u8..20).collect();
    assert_eq!(key_from_material(&material), Ok(vec![17, 18, 19]));
    let shortest: Vec<u8> = (0u8..18).collect();
    assert_eq!(key_from_material(&shortest), Ok(vec![17]));
}

#[test]
fn key_material_must_hold_a_key() {
    let material: Vec<u8> = (0u8..17).collect();
    assert_eq!(key_from_material(&material), Err(DumpError::KeyMaterialTooShort));
    assert_eq!(key_from_material(&[]), Err(DumpError::KeyMaterialTooShort));
}

#[test]
fn key_blob_of_bad_length_is_a_cipher_error() {
    assert_eq!(
        recover_key(&[0u8; 15]),
        Err(DumpError::Cipher(CipherError::InvalidLength))
    );
    assert_eq!(recover_key(&[]), Err(DumpError::KeyMaterialTooShort));
}
