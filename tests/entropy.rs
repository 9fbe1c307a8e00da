use ic_utils::entropy::{decode_random_u32, decode_random_u64, RandomError};

#[test]
fn u64_from_big_endian_one() {
    let reply = Ok(vec![0, 0, 0, 0, 0, 0, 0, 1]);
    assert_eq!(decode_random_u64(reply), Ok(1));
}

#[test]
fn u64_reads_only_the_first_eight_bytes() {
    let mut bytes: Vec<u8> = vec![0x01, 0x23, 0x45, 0x67, 0x89, 0xab, 0xcd, 0xef];
    bytes.extend_from_slice(&[0xff; 24]);
    assert_eq!(decode_random_u64(Ok(bytes)), Ok(0x0123_4567_89ab_cdef));
}

#[test]
fn u64_rejection_keeps_the_message() {
    let reply = Err("quota exceeded".to_string());
    assert_eq!(
        decode_random_u64(reply),
        Err(RandomError::Rejected("quota exceeded".to_string()))
    );
}

#[test]
fn u64_short_reply_is_a_decoding_error() {
    let reply = Ok(vec![1, 2, 3, 4, 5, 6, 7]);
    assert_eq!(decode_random_u64(reply), Err(RandomError::TooShort { len: 7, needed: 8 }));
    assert_eq!(decode_random_u64(Ok(vec![])), Err(RandomError::TooShort { len: 0, needed: 8 }));
}

#[test]
fn u32_from_big_endian_bytes() {
    assert_eq!(decode_random_u32(Ok(vec![0, 0, 0, 1])), Ok(1));
    let mut bytes: Vec<u8> = vec![0xde, 0xad, 0xbe, 0xef];
    bytes.extend_from_slice(&[0x11; 28]);
    assert_eq!(decode_random_u32(Ok(bytes)), Ok(0xdead_beef));
}

#[test]
fn u32_rejection_keeps_the_message() {
    let reply = Err("canister out of cycles".to_string());
    assert_eq!(
        decode_random_u32(reply),
        Err(RandomError::Rejected("canister out of cycles".to_string()))
    );
}

#[test]
fn u32_short_reply_is_a_decoding_error() {
    assert_eq!(
        decode_random_u32(Ok(vec![9, 9, 9])),
        Err(RandomError::TooShort { len: 3, needed: 4 })
    );
}
