use ctsolver::ct::payload::encryption::{e, n, process_data, string_to_bytes, tea_round, EncryptionError};

#[test]
fn wrong_lengths_are_refused() {
    assert_eq!(process_data(&[0; 15], &[0; 8], b"data"), Err(EncryptionError::KeyLength));
    assert_eq!(process_data(&[0; 17], &[0; 7], b"data"), Err(EncryptionError::KeyLength));
    assert_eq!(process_data(&[0; 16], &[0; 9], b""), Err(EncryptionError::IvLength));
    assert_eq!(EncryptionError::KeyLength.message(), "key must be 128-bit");
    assert_eq!(EncryptionError::IvLength.message(), "iv must be 64-bit");
}

#[test]
fn big_endian_words() {
    let data = [0x01, 0x02, 0x03, 0x04, 0xff, 0xee, 0xdd, 0xcc, 0x10];
    assert_eq!(n(&data, 0), 0x01020304);
    assert_eq!(n(&data, 4), 0xffeeddcc);
    assert_eq!(n(&data, 5), 0xeeddcc10);
    assert_eq!(e(&data, 0), [0x01020304, 0xffeeddcc]);
}

#[test]
fn rounds_match_the_published_vector() {
    // XTEA, 32 rounds: key 000102..0f, block 4142434445464748
    let key = [0x00010203, 0x04050607, 0x08090a0b, 0x0c0d0e0f];
    assert_eq!(tea_round(&key, [0x41424344, 0x45464748]), [0x497df3d0, 0x72612cb5]);
}

#[test]
fn rounds_are_deterministic_and_key_dependent() {
    let a = tea_round(&[1, 2, 3, 4], [5, 6]);
    assert_eq!(a, tea_round(&[1, 2, 3, 4], [5, 6]));
    assert_ne!(a, tea_round(&[1, 2, 3, 5], [5, 6]));
    assert_ne!(a, [5, 6]);
}

#[test]
fn string_bytes_are_utf8() {
    assert_eq!(string_to_bytes("abc"), vec![97, 98, 99]);
    assert_eq!(string_to_bytes("é€"), vec![0xc3, 0xa9, 0xe2, 0x82, 0xac]);
    assert!(string_to_bytes("").is_empty());
}
