use identity_unlock::data_type::DataType;
use identity_unlock::error::SqrlError;
use identity_unlock::identity_unlock::{IdentityUnlock, IDENTITY_UNLOCK_LEN};
use identity_unlock::readable_vector::{next_array, ReadableVector};
use identity_unlock::scrypt_config::{check_cost, ScryptConfig};
use identity_unlock::wire::{get_u32, is_all_zero, put_bytes, put_u16, put_u32};
use identity_unlock::writable_datablock::WritableDataBlock;
use std::collections::VecDeque;

/// The 25 bytes of a configuration with salt 0, 1, .., 15 and the given cost.
fn config_bytes(log_n: u8, r: u32, p: u32) -> Vec<u8> {
    let mut bytes: Vec<u8> = (0u8..16).collect();
    bytes.push(log_n);
    bytes.extend_from_slice(&r.to_le_bytes());
    bytes.extend_from_slice(&p.to_le_bytes());
    bytes
}

/// The 73 bytes of a block with the cheapest cost, ciphertext 100, 101, ..
/// and tag 200, 201, ..
fn sample_body() -> Vec<u8> {
    let mut bytes = config_bytes(1, 1, 1);
    bytes.extend((0u8..32).map(|i| 100 + i));
    bytes.extend((0u8..16).map(|i| 200 + i));
    bytes
}

fn queue(bytes: &[u8]) -> VecDeque<u8> {
    bytes.iter().copied().collect()
}

#[test]
fn put_u16_writes_low_byte_first() {
    let mut out = vec![9u8];
    put_u16(&mut out, 0x1234);
    assert_eq!(out, vec![9, 0x34, 0x12]);
    put_u16(&mut out, 73);
    assert_eq!(out, vec![9, 0x34, 0x12, 73, 0]);
}

#[test]
fn put_u32_writes_low_byte_first() {
    let mut out = Vec::new();
    put_u32(&mut out, 0x0102_0304);
    assert_eq!(out, vec![4, 3, 2, 1]);
    put_u32(&mut out, u32::MAX);
    assert_eq!(out, vec![4, 3, 2, 1, 255, 255, 255, 255]);
}

#[test]
fn get_u32_reads_low_byte_first() {
    assert_eq!(get_u32(&[4, 3, 2, 1]), 0x0102_0304);
    assert_eq!(get_u32(&[0, 0, 0, 0]), 0);
    assert_eq!(get_u32(&[255, 255, 255, 255]), u32::MAX);
    assert_eq!(get_u32(&[0, 1, 0, 0]), 256);
}

#[test]
fn put_bytes_appends() {
    let mut out = vec![1u8, 2];
    put_bytes(&mut out, &[3, 4, 5]);
    put_bytes(&mut out, &[]);
    assert_eq!(out, vec![1, 2, 3, 4, 5]);
}

#[test]
fn is_all_zero_tells_zero_bytes() {
    assert!(is_all_zero(&[]));
    assert!(is_all_zero(&[0; 32]));
    let mut bytes = [0u8; 32];
    bytes[31] = 1;
    assert!(!is_all_zero(&bytes));
    bytes[31] = 0;
    bytes[0] = 255;
    assert!(!is_all_zero(&bytes));
}

#[test]
fn next_sub_array_takes_from_the_front() {
    let mut binary = queue(&[1, 2, 3, 4, 5]);
    assert_eq!(binary.next_sub_array(2), Ok(vec![1, 2]));
    assert_eq!(binary, queue(&[3, 4, 5]));
    assert_eq!(binary.next_sub_array(0), Ok(vec![]));
    assert_eq!(binary.next_sub_array(3), Ok(vec![3, 4, 5]));
    assert!(binary.is_empty());
}

#[test]
fn next_sub_array_refuses_a_short_queue_and_keeps_it() {
    let mut binary = queue(&[1, 2, 3]);
    assert_eq!(binary.next_sub_array(4), Err(SqrlError::StructuralParseError));
    assert_eq!(binary, queue(&[1, 2, 3]));
}

#[test]
fn next_u8_and_next_u32_read_numbers() {
    let mut binary = queue(&[7, 0x78, 0x56, 0x34, 0x12, 9]);
    assert_eq!(binary.next_u8(), Ok(7));
    assert_eq!(binary.next_u32(), Ok(0x1234_5678));
    assert_eq!(binary.next_u32(), Err(SqrlError::StructuralParseError));
    assert_eq!(binary, queue(&[9]));
    assert_eq!(binary.next_u8(), Ok(9));
    assert_eq!(binary.next_u8(), Err(SqrlError::StructuralParseError));
}

#[test]
fn next_array_takes_a_fixed_width() {
    let mut binary = queue(&[1, 2, 3, 4, 5]);
    let first: Result<[u8; 4], SqrlError> = next_array(&mut binary);
    assert_eq!(first, Ok([1, 2, 3, 4]));
    let second: Result<[u8; 2], SqrlError> = next_array(&mut binary);
    assert_eq!(second, Err(SqrlError::StructuralParseError));
    assert_eq!(binary, queue(&[5]));
}

#[test]
fn data_type_tags() {
    let mut out = Vec::new();
    assert_eq!(DataType::UserAccess.to_binary(&mut out), Ok(()));
    assert_eq!(DataType::RescueCode.to_binary(&mut out), Ok(()));
    assert_eq!(DataType::PreviousIdentity.to_binary(&mut out), Ok(()));
    assert_eq!(out, vec![1, 0, 2, 0, 3, 0]);
}

#[test]
fn error_messages() {
    assert_eq!(
        SqrlError::AuthenticationFailure.message(),
        "Decryption failed. Check your password!"
    );
    assert_eq!(
        SqrlError::StructuralParseError.message(),
        "Invalid binary data: a field is truncated or out of range"
    );
}

#[test]
fn check_cost_accepts_and_refuses() {
    assert!(check_cost(9, 256, 1));
    assert!(check_cost(10, 8, 1));
    assert!(check_cost(1, 1, 1));
    assert!(check_cost(15, 1, 1));
    assert!(check_cost(22, 2, 1));
    assert!(check_cost(1, 0x40_0000, 2));
    assert!(check_cost(1, 1, 0x80_0000));
    // a parameter of zero
    assert!(!check_cost(0, 1, 1));
    assert!(!check_cost(1, 0, 1));
    assert!(!check_cost(1, 1, 0));
    // the table must stay below 2^(16 r)
    assert!(!check_cost(16, 1, 1));
    assert!(check_cost(16, 2, 1));
    // the work area
    assert!(!check_cost(23, 2, 1));
    assert!(!check_cost(24, 2, 1));
    assert!(!check_cost(255, 255, 1));
    assert!(!check_cost(1, 0x40_0001, 1));
    assert!(!check_cost(1, 1, 0x80_0001));
    assert!(!check_cost(1, u32::MAX, u32::MAX));
}

#[test]
fn new_config_has_the_default_cost_and_a_salt_of_its_own() {
    let first = ScryptConfig::new();
    let second = ScryptConfig::new();
    assert_eq!(first.log_n_factor(), 10);
    assert_eq!(first.block_size(), 8);
    assert_eq!(first.parallelism(), 1);
    assert_eq!(first.len(), 25);
    assert_ne!(first.random_salt(), second.random_salt());
    let mut bytes = Vec::new();
    assert_eq!(first.to_binary(&mut bytes), Ok(()));
    assert_eq!(bytes.len(), 25);
    assert_eq!(&bytes[..16], &first.random_salt()[..]);
    assert_eq!(&bytes[16..], &[10, 8, 0, 0, 0, 1, 0, 0, 0]);
}

#[test]
fn config_decodes_its_fields() {
    let mut binary = queue(&config_bytes(3, 0x03_0201, 42));
    binary.push_back(77);
    let config = ScryptConfig::from_binary(&mut binary).unwrap();
    assert_eq!(config.random_salt(), &[0, 1, 2, 3, 4, 5, 6, 7, 8, 9, 10, 11, 12, 13, 14, 15]);
    assert_eq!(config.log_n_factor(), 3);
    assert_eq!(config.block_size(), 0x03_0201);
    assert_eq!(config.parallelism(), 42);
    assert_eq!(binary, queue(&[77]));
    let mut out = vec![5u8];
    assert_eq!(config.to_binary(&mut out), Ok(()));
    assert_eq!(&out[1..], &config_bytes(3, 0x03_0201, 42)[..]);
    assert_eq!(&out[17..], &[3, 1, 2, 3, 0, 42, 0, 0, 0]);
}

#[test]
fn config_refuses_a_short_queue_and_keeps_it() {
    let bytes = config_bytes(1, 1, 1);
    for n in 0..25 {
        let mut binary = queue(&bytes[..n]);
        assert_eq!(ScryptConfig::from_binary(&mut binary), Err(SqrlError::StructuralParseError));
        assert_eq!(binary, queue(&bytes[..n]));
    }
}

#[test]
fn config_refuses_a_cost_out_of_range_and_takes_the_field() {
    for (log_n, r, p) in [(0u8, 1u32, 1u32), (1, 0, 1), (1, 1, 0), (16, 1, 1), (24, 1, 1), (9, u32::MAX, 1)]
    {
        let mut binary = queue(&config_bytes(log_n, r, p));
        binary.push_back(77);
        assert_eq!(ScryptConfig::from_binary(&mut binary), Err(SqrlError::StructuralParseError));
        assert_eq!(binary, queue(&[77]));
    }
}

#[test]
fn block_kind_and_declared_length() {
    let block = IdentityUnlock::from_binary(&mut queue(&sample_body())).unwrap();
    assert_eq!(block.get_type(), DataType::RescueCode);
    assert_eq!(block.len(), 73);
    assert_eq!(IDENTITY_UNLOCK_LEN, 73);
}

#[test]
fn encode_after_decode_gives_the_same_bytes() {
    let body = sample_body();
    assert_eq!(body.len(), 73);
    let mut binary = queue(&body);
    binary.extend([1u8, 2, 3]);
    let block = IdentityUnlock::from_binary(&mut binary).unwrap();
    assert_eq!(binary, queue(&[1, 2, 3]));
    let mut out = Vec::new();
    assert_eq!(block.to_binary_inner(&mut out), Ok(()));
    assert_eq!(out, body);
}

#[test]
fn decode_after_encode_gives_the_same_block() {
    let block = IdentityUnlock::from_binary(&mut queue(&sample_body())).unwrap();
    let mut out = vec![0xEEu8, 0xFF];
    assert_eq!(block.to_binary_inner(&mut out), Ok(()));
    assert_eq!(out.len(), 2 + 73);
    let again = IdentityUnlock::from_binary(&mut queue(&out[2..])).unwrap();
    assert_eq!(again, block);
}

#[test]
fn aad_is_length_kind_and_config() {
    let block = IdentityUnlock::from_binary(&mut queue(&sample_body())).unwrap();
    let aad = block.aad().unwrap();
    let mut expected = vec![73u8, 0, 2, 0];
    expected.extend(config_bytes(1, 1, 1));
    assert_eq!(aad, expected);
    assert_eq!(aad.len(), 29);
}

#[test]
fn truncated_input_is_a_structural_parse_error() {
    let body = sample_body();
    for n in 0..73 {
        let mut binary = queue(&body[..n]);
        assert_eq!(IdentityUnlock::from_binary(&mut binary), Err(SqrlError::StructuralParseError));
    }
    assert!(IdentityUnlock::from_binary(&mut queue(&body)).is_ok());
}

#[test]
fn truncated_input_leaves_the_incomplete_field_in_the_queue() {
    let body = sample_body();
    // the configuration is incomplete: nothing is taken
    let mut binary = queue(&body[..24]);
    assert!(IdentityUnlock::from_binary(&mut binary).is_err());
    assert_eq!(binary.len(), 24);
    // the ciphertext is incomplete: the configuration is taken
    let mut binary = queue(&body[..56]);
    assert!(IdentityUnlock::from_binary(&mut binary).is_err());
    assert_eq!(binary, queue(&body[25..56]));
    // the tag is incomplete: configuration and ciphertext are taken
    let mut binary = queue(&body[..72]);
    assert!(IdentityUnlock::from_binary(&mut binary).is_err());
    assert_eq!(binary, queue(&body[57..72]));
}

#[test]
fn block_with_a_cost_out_of_range_is_a_structural_parse_error() {
    let mut body = sample_body();
    body[16] = 0;
    assert_eq!(IdentityUnlock::from_binary(&mut queue(&body)), Err(SqrlError::StructuralParseError));
    let mut body = sample_body();
    body[17] = 0;
    assert_eq!(IdentityUnlock::from_binary(&mut queue(&body)), Err(SqrlError::StructuralParseError));
}
