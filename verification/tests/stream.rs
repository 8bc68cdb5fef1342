use ncmdump::keybox::build_key_box;
use ncmdump::stream::{decrypt_in_place, decrypt_payload, CHUNK_LEN};

#[test]
fn keystream_values() {
    let key_box = build_key_box(b"abc");
    let mut zeros = vec![0u8; 8];
    decrypt_in_place(&mut zeros, &key_box);
    assert_eq!(zeros, vec![254, 140, 255, 104, 248, 0, 148, 131]);
}

#[test]
fn decrypt_in_place_combines_each_byte_with_the_keystream() {
    let key_box = build_key_box(b"abc");
    let mut chunk = b"hello world!".to_vec();
    decrypt_in_place(&mut chunk, &key_box);
    assert_eq!(chunk, vec![150, 233, 147, 4, 151, 32, 227, 236, 92, 124, 9, 88]);
}

#[test]
fn decrypt_in_place_twice_gives_the_chunk_back() {
    let key_box = build_key_box(&[1, 2, 3, 4, 5]);
    let clear: Vec<u8> = (0..1000u32).map(|i| (i * 13) as u8).collect();
    let mut chunk = clear.clone();
    decrypt_in_place(&mut chunk, &key_box);
    assert_ne!(chunk, clear);
    decrypt_in_place(&mut chunk, &key_box);
    assert_eq!(chunk, clear);
}

#[test]
fn decrypt_in_place_of_nothing() {
    let key_box = build_key_box(&[9]);
    let mut chunk: Vec<u8> = Vec::new();
    decrypt_in_place(&mut chunk, &key_box);
    assert!(chunk.is_empty());
}

#[test]
fn decrypt_in_place_of_a_full_chunk() {
    let key_box = build_key_box(&[0]);
    let mut chunk = vec![0u8; CHUNK_LEN];
    decrypt_in_place(&mut chunk, &key_box);
    assert_eq!(&chunk[..8], &[212, 173, 125, 27, 87, 250, 69, 139]);
    assert_eq!(chunk[254], 161);
    assert_eq!(chunk[255], 0);
    assert_eq!(chunk[256], 212);
    assert_eq!(chunk[0x7fff], 0);
}

#[test]
fn keystream_is_the_same_in_every_chunk() {
    let key_box = build_key_box(b"some key");
    let first: Vec<u8> = (0..CHUNK_LEN).map(|i| (i % 253) as u8).collect();
    let second: Vec<u8> = (0..CHUNK_LEN).map(|i| (i * 7 % 241) as u8).collect();
    let mut a = first.clone();
    let mut b = second.clone();
    decrypt_in_place(&mut a, &key_box);
    decrypt_in_place(&mut b, &key_box);
    for i in 0..CHUNK_LEN {
        assert_eq!(a[i] ^ first[i], b[i] ^ second[i]);
    }
}

#[test]
fn payload_is_decrypted_chunk_by_chunk() {
    let key_box = build_key_box(b"some key");
    let payload: Vec<u8> = (0..(2 * CHUNK_LEN + 100)).map(|i| (i % 199) as u8).collect();
    let audio = decrypt_payload(&payload, &key_box);
    assert_eq!(audio.len(), payload.len());
    let mut start = 0;
    while start < payload.len() {
        let end = usize::min(start + CHUNK_LEN, payload.len());
        let mut chunk = payload[start..end].to_vec();
        decrypt_in_place(&mut chunk, &key_box);
        assert_eq!(&audio[start..end], &chunk[..]);
        start = end;
    }
}

#[test]
fn payload_chunks_share_one_keystream() {
    let key_box = build_key_box(b"abc");
    let zeros = vec![0u8; CHUNK_LEN + 8];
    let audio = decrypt_payload(&zeros, &key_box);
    assert_eq!(&audio[..8], &[254, 140, 255, 104, 248, 0, 148, 131]);
    assert_eq!(&audio[CHUNK_LEN..], &[254, 140, 255, 104, 248, 0, 148, 131]);
}

#[test]
fn payload_keeps_its_length() {
    let key_box = build_key_box(&[3]);
    for len in [0usize, 1, 255, 256, CHUNK_LEN - 1, CHUNK_LEN, CHUNK_LEN + 1] {
        let payload = vec![0x5Au8; len];
        assert_eq!(decrypt_payload(&payload, &key_box).len(), len);
    }
}
