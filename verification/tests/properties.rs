//! Behavioural tests: round trips across widths, determinism, avalanche,
//! boundary keys, input validation, and byte conversion.
use rc5::decode;
use rc5::encode;
use rc5::expand_key;
use rc5::Error;
use rc5::FromBytes;
use rc5::IntoBytes;
use rc5::MAX_KEY_BYTES;

#[test]
fn round_trip_u16() {
    let key = vec![0xDE, 0xAD, 0xBE, 0xEF, 0x01];
    let pt = vec![0x12, 0x34, 0x56, 0x78];
    let key_s = expand_key::<u16>(&key, 34).unwrap();
    let ct = encode::<u16>(&key_s, &pt).unwrap();
    let back = decode::<u16>(&key_s, &ct).unwrap();
    assert_eq!(back, pt);
}

#[test]
fn round_trip_u32() {
    let key = vec![0x00, 0x01, 0x02, 0x03, 0x04, 0x05, 0x06, 0x07];
    let pt = vec![0xAA, 0xBB, 0xCC, 0xDD, 0xEE, 0xFF, 0x00, 0x11];
    let key_s = expand_key::<u32>(&key, 26).unwrap();
    let ct = encode::<u32>(&key_s, &pt).unwrap();
    let back = decode::<u32>(&key_s, &ct).unwrap();
    assert_eq!(back, pt);
}

#[test]
fn round_trip_u64() {
    let key = vec![0x42; 24];
    let pt = vec![
        0x01, 0x23, 0x45, 0x67, 0x89, 0xAB, 0xCD, 0xEF, 0xFE, 0xDC, 0xBA, 0x98, 0x76, 0x54, 0x32,
        0x10,
    ];
    let key_s = expand_key::<u64>(&key, 42).unwrap();
    let ct = encode::<u64>(&key_s, &pt).unwrap();
    let back = decode::<u64>(&key_s, &ct).unwrap();
    assert_eq!(back, pt);
}

#[test]
fn round_trip_zero_rounds() {
    // t = 2 is the smallest legal schedule: round count 0.
    let key = vec![0x11, 0x22, 0x33];
    let pt = vec![0x9A, 0x8B, 0x7C, 0x6D, 0x5E, 0x4F, 0x30, 0x21];
    let key_s = expand_key::<u32>(&key, 2).unwrap();
    assert_eq!(key_s.len(), 2);
    let ct = encode::<u32>(&key_s, &pt).unwrap();
    let back = decode::<u32>(&key_s, &ct).unwrap();
    assert_eq!(back, pt);
}

#[test]
fn round_trip_longest_key() {
    let key: Vec<u8> = (0..=254u8).map(|x| x.wrapping_mul(37)).collect();
    assert_eq!(key.len(), MAX_KEY_BYTES);
    let pt = vec![0x10, 0x32, 0x54, 0x76, 0x98, 0xBA, 0xDC, 0xFE];
    let key_s = expand_key::<u32>(&key, 26).unwrap();
    let ct = encode::<u32>(&key_s, &pt).unwrap();
    let back = decode::<u32>(&key_s, &ct).unwrap();
    assert_eq!(back, pt);
}

#[test]
fn expand_key_deterministic() {
    let key = vec![0x0F, 0x1E, 0x2D, 0x3C, 0x4B, 0x5A, 0x69, 0x78];
    let s1 = expand_key::<u32>(&key, 26).unwrap();
    let s2 = expand_key::<u32>(&key, 26).unwrap();
    assert_eq!(s1, s2);
    let s3 = expand_key::<u16>(&key, 26).unwrap();
    let s4 = expand_key::<u16>(&key, 26).unwrap();
    assert_eq!(s3, s4);
}

#[test]
fn avalanche_plaintext_bit() {
    let key = vec![0x00, 0x01, 0x02, 0x03, 0x04, 0x05, 0x06, 0x07];
    let key_s = expand_key::<u32>(&key, 26).unwrap();
    let pt1 = vec![0x00, 0x11, 0x22, 0x33, 0x44, 0x55, 0x66, 0x77];
    let mut pt2 = pt1.clone();
    pt2[0] ^= 0x01;
    let ct1 = encode::<u32>(&key_s, &pt1).unwrap();
    let ct2 = encode::<u32>(&key_s, &pt2).unwrap();
    assert_ne!(ct1, ct2);
    // Substantially different, not just in the flipped position: several
    // bytes of the two ciphertexts differ.
    let differing = ct1.iter().zip(ct2.iter()).filter(|(x, y)| x != y).count();
    assert!(differing >= 2);
}

#[test]
fn avalanche_key_bit() {
    let mut key2 = vec![0x00, 0x01, 0x02, 0x03, 0x04, 0x05, 0x06, 0x07];
    let key1 = key2.clone();
    key2[7] ^= 0x80;
    let pt = vec![0x00, 0x11, 0x22, 0x33, 0x44, 0x55, 0x66, 0x77];
    let s1 = expand_key::<u32>(&key1, 26).unwrap();
    let s2 = expand_key::<u32>(&key2, 26).unwrap();
    let ct1 = encode::<u32>(&s1, &pt).unwrap();
    let ct2 = encode::<u32>(&s2, &pt).unwrap();
    assert_ne!(ct1, ct2);
}

#[test]
fn empty_key_is_legal() {
    let key: Vec<u8> = vec![];
    let s1 = expand_key::<u32>(&key, 26).unwrap();
    let s2 = expand_key::<u32>(&key, 26).unwrap();
    assert_eq!(s1.len(), 26);
    assert_eq!(s1, s2);
    let pt = vec![0xC0, 0xFF, 0xEE, 0x00, 0xBA, 0x5E, 0xBA, 0x11];
    let ct = encode::<u32>(&s1, &pt).unwrap();
    let back = decode::<u32>(&s1, &ct).unwrap();
    assert_eq!(back, pt);
}

#[test]
fn encode_rejects_wrong_length() {
    let key = vec![0x01, 0x02];
    let key_s = expand_key::<u32>(&key, 26).unwrap();
    let short = vec![0x00; 7];
    let long = vec![0x00; 9];
    let empty: Vec<u8> = vec![];
    assert_eq!(encode::<u32>(&key_s, &short).unwrap_err(), Error::LengthMismatch);
    assert_eq!(encode::<u32>(&key_s, &long).unwrap_err(), Error::LengthMismatch);
    assert_eq!(encode::<u32>(&key_s, &empty).unwrap_err(), Error::LengthMismatch);
}

#[test]
fn decode_rejects_wrong_length() {
    let key = vec![0x01, 0x02];
    let key_s = expand_key::<u32>(&key, 26).unwrap();
    let short = vec![0x00; 7];
    let long = vec![0x00; 9];
    assert_eq!(decode::<u32>(&key_s, &short).unwrap_err(), Error::LengthMismatch);
    assert_eq!(decode::<u32>(&key_s, &long).unwrap_err(), Error::LengthMismatch);
    // A 16-bit schedule expects a 4-byte block, so 8 bytes is now wrong.
    let key_s16 = expand_key::<u16>(&key, 26).unwrap();
    let eight = vec![0x00; 8];
    assert_eq!(decode::<u16>(&key_s16, &eight).unwrap_err(), Error::LengthMismatch);
}

#[test]
fn expand_key_rejects_bad_subkey_count() {
    let key = vec![0x01, 0x02, 0x03];
    assert_eq!(expand_key::<u32>(&key, 0).unwrap_err(), Error::UnsupportedParameters);
    assert_eq!(expand_key::<u32>(&key, 1).unwrap_err(), Error::UnsupportedParameters);
    assert_eq!(expand_key::<u32>(&key, 25).unwrap_err(), Error::UnsupportedParameters);
    assert!(expand_key::<u32>(&key, 2).is_ok());
}

#[test]
fn expand_key_rejects_oversized_key() {
    let key = vec![0x5A; MAX_KEY_BYTES + 1];
    assert_eq!(expand_key::<u32>(&key, 26).unwrap_err(), Error::UnsupportedParameters);
    let key_max = vec![0x5A; MAX_KEY_BYTES];
    assert!(expand_key::<u32>(&key_max, 26).is_ok());
}

#[test]
fn word_to_le_bytes() {
    assert_eq!(<u16 as IntoBytes>::to_le_bytes(0xA1B2), vec![0xB2, 0xA1]);
    assert_eq!(<u32 as IntoBytes>::to_le_bytes(0xA1B2C3D4), vec![0xD4, 0xC3, 0xB2, 0xA1]);
    assert_eq!(
        <u64 as IntoBytes>::to_le_bytes(0x0102030405060708),
        vec![0x08, 0x07, 0x06, 0x05, 0x04, 0x03, 0x02, 0x01]
    );
}

#[test]
fn word_from_le_bytes() {
    assert_eq!(<u16 as FromBytes>::from_le_bytes(&[0xB2, 0xA1]), Some(0xA1B2));
    assert_eq!(<u32 as FromBytes>::from_le_bytes(&[0xD4, 0xC3, 0xB2, 0xA1]), Some(0xA1B2C3D4));
    assert_eq!(
        <u64 as FromBytes>::from_le_bytes(&[0x08, 0x07, 0x06, 0x05, 0x04, 0x03, 0x02, 0x01]),
        Some(0x0102030405060708)
    );
    assert_eq!(<u32 as FromBytes>::from_le_bytes(&[0x01, 0x02, 0x03]), None);
    assert_eq!(<u32 as FromBytes>::from_le_bytes(&[0x01, 0x02, 0x03, 0x04, 0x05]), None);
    assert_eq!(<u16 as FromBytes>::from_le_bytes(&[]), None);
}
