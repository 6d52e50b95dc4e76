use vigyl::trigger::account_state::{account_changed, hash_slice, AccountStateTrigger};
use vigyl::VigylError;

#[test]
fn account_state_roundtrip_encode_decode() {
    let t = AccountStateTrigger {
        watched_account: [3u8; 32],
        expected_hash: [7u8; 32],
        data_offset: 8,
        data_len: 32,
    };
    let buf = t.encode();
    let back = AccountStateTrigger::decode(&buf);
    assert_eq!(back, t);
}

#[test]
fn zero_len_hashes_whole_data() {
    let data = vec![1u8, 2, 3, 4, 5];
    let a = hash_slice(&data, 0, 0).unwrap();
    let b = hash_slice(&data, 0, 5).unwrap();
    assert_eq!(a, b);
}

#[test]
fn out_of_range_offset_rejected() {
    let data = vec![1u8; 4];
    let err = hash_slice(&data, 10, 1).unwrap_err();
    assert_eq!(err, VigylError::OutOfRange("offset > data.len()"));
}

#[test]
fn account_state_layout_bytes() {
    let t = AccountStateTrigger {
        watched_account: [1u8; 32],
        expected_hash: [2u8; 32],
        data_offset: 0x0102,
        data_len: 0xA0B0,
    };
    let buf = t.encode();
    assert!(buf[0..32].iter().all(|b| *b == 1));
    assert!(buf[32..64].iter().all(|b| *b == 2));
    assert_eq!(&buf[64..68], &[0x02, 0x01, 0xB0, 0xA0]);
    assert!(buf[68..].iter().all(|b| *b == 0));
}

#[test]
fn account_state_decode_ignores_reserved() {
    let t = AccountStateTrigger {
        watched_account: [9u8; 32],
        expected_hash: [8u8; 32],
        data_offset: 1,
        data_len: 2,
    };
    let mut buf = t.encode();
    for b in buf[68..].iter_mut() {
        *b = 0xFF;
    }
    assert_eq!(AccountStateTrigger::decode(&buf), t);
}

#[test]
fn hash_slice_digests_the_requested_bytes() {
    let data = b"xxabcyy".to_vec();
    let h = hash_slice(&data, 2, 3).unwrap();
    let expected: [u8; 32] = [
        0xba, 0x78, 0x16, 0xbf, 0x8f, 0x01, 0xcf, 0xea, 0x41, 0x41, 0x40, 0xde, 0x5d, 0xae, 0x22,
        0x23, 0xb0, 0x03, 0x61, 0xa3, 0x96, 0x17, 0x7a, 0x9c, 0xb4, 0x10, 0xff, 0x61, 0xf2, 0x00,
        0x15, 0xad,
    ];
    assert_eq!(h, expected);
}

#[test]
fn hash_slice_cuts_at_end_of_data() {
    let data = b"xxabc".to_vec();
    assert_eq!(hash_slice(&data, 2, 100).unwrap(), hash_slice(&data, 2, 3).unwrap());
    assert_ne!(hash_slice(&data, 2, 2).unwrap(), hash_slice(&data, 2, 3).unwrap());
}

#[test]
fn zero_len_hashes_whole_data_at_any_offset() {
    let data = b"xxabc".to_vec();
    let whole = hash_slice(&data, 0, 5).unwrap();
    assert_eq!(hash_slice(&data, 2, 0).unwrap(), whole);
    assert_eq!(hash_slice(&data, 5, 0).unwrap(), whole);
    assert_ne!(hash_slice(&data, 2, 3).unwrap(), whole);
}

#[test]
fn offset_at_end_hashes_empty_slice() {
    let data = vec![1u8; 4];
    let empty: [u8; 32] = [
        0xe3, 0xb0, 0xc4, 0x42, 0x98, 0xfc, 0x1c, 0x14, 0x9a, 0xfb, 0xf4, 0xc8, 0x99, 0x6f, 0xb9,
        0x24, 0x27, 0xae, 0x41, 0xe4, 0x64, 0x9b, 0x93, 0x4c, 0xa4, 0x95, 0x99, 0x1b, 0x78, 0x52,
        0xb8, 0x55,
    ];
    assert_eq!(hash_slice(&data, 4, 9).unwrap(), empty);
    assert_eq!(hash_slice(&[], 0, 0).unwrap(), empty);
}

#[test]
fn account_changed_compares_digests() {
    assert!(!account_changed(&[5u8; 32], &[5u8; 32]));
    let mut other = [5u8; 32];
    other[31] = 6;
    assert!(account_changed(&[5u8; 32], &other));
}

#[test]
fn account_state_reencode_gives_buffer_back() {
    let mut buf = [0u8; 128];
    for (i, b) in buf[..68].iter_mut().enumerate() {
        *b = (i * 7) as u8;
    }
    let t = AccountStateTrigger::decode(&buf);
    assert_eq!(t.encode(), buf);
}
