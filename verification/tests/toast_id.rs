use toaster::toast_id::BYTES_LEN;
use toaster::{ToastId, ToastIdFromStrError};

fn expected_counter_string(tail: &[u8]) -> String {
    let mut bytes = vec![0u8; BYTES_LEN];
    let start: usize = BYTES_LEN - tail.len();
    bytes[start..].copy_from_slice(tail);
    bytes.iter().map(|b| b.to_string()).collect::<Vec<_>>().join(",")
}

#[test]
fn counter_ids_are_distinct_and_sequential() {
    let mut counter: usize = 0;
    let a = ToastId::new(&mut counter);
    let b = ToastId::new(&mut counter);
    assert_eq!(counter, 2);
    assert!(a != b);
    assert_eq!(a, ToastId::from_usize(0));
    assert_eq!(b, ToastId::from_usize(1));
}

#[test]
fn from_usize_encodes_big_endian() {
    let id = ToastId::from_usize(0x0102);
    assert_eq!(id.to_decodable_string(), expected_counter_string(&[1, 2]));
    let seven = ToastId::from_usize(7);
    assert_eq!(seven.to_decodable_string(), expected_counter_string(&[7]));
}

#[test]
fn encode_renders_multi_digit_bytes() {
    let id = ToastId::from_usize(0xFF64); // bytes 255 and 100 at the tail
    assert_eq!(id.to_decodable_string(), expected_counter_string(&[255, 100]));
}

#[test]
fn round_trip_counter_id() {
    let id = ToastId::from_usize(123_456_789);
    let wire = id.to_decodable_string();
    assert_eq!(ToastId::decode_string(&wire), id);
    assert_eq!(ToastId::try_decode_string(&wire), Some(id));
}

#[test]
fn round_trip_string_id() {
    let id = ToastId::from_str_truncated("hello world");
    let wire = id.to_decodable_string();
    assert_eq!(ToastId::decode_string(&wire), id);
}

#[test]
fn round_trip_long_string_id() {
    let long: String = "x".repeat(100);
    let id = ToastId::from_str_truncated(&long);
    let wire = id.to_decodable_string();
    assert_eq!(ToastId::decode_string(&wire), id);
}

#[test]
fn string_ids_truncate_deterministically() {
    let long: String = "abcdefgh".repeat(10);
    let id = ToastId::from_str_truncated(&long);
    assert_eq!(id, ToastId::from_str_truncated(&long[..BYTES_LEN]));
}

#[test]
fn string_id_fills_tail_back_to_front() {
    // byte 0 of the string lands at slot 63, byte 1 at slot 62, ...
    let id = ToastId::from_str_truncated("ab");
    let wire = id.to_decodable_string();
    let segments: Vec<&str> = wire.split(',').collect();
    assert_eq!(segments.len(), BYTES_LEN);
    assert_eq!(segments[63], "97"); // 'a'
    assert_eq!(segments[62], "98"); // 'b'
    assert_eq!(segments[0], "0");
}

#[test]
fn try_from_str_accepts_up_to_width() {
    let exact: String = "y".repeat(BYTES_LEN);
    let id = ToastId::try_from_str(&exact).unwrap();
    assert_eq!(id, ToastId::from_str_truncated(&exact));
    assert_eq!(
        ToastId::try_from_str("short").unwrap(),
        ToastId::from_str_truncated("short")
    );
}

#[test]
fn try_from_str_rejects_over_length() {
    let long: String = "y".repeat(BYTES_LEN + 1);
    assert_eq!(
        ToastId::try_from_str(&long),
        Err(ToastIdFromStrError::StrTooLong)
    );
}

#[test]
fn decode_accepts_leading_zeros() {
    assert_eq!(
        ToastId::decode_string("007"),
        ToastId::decode_string("7")
    );
}

#[test]
fn decode_pads_missing_segments_with_zeros() {
    let decoded = ToastId::try_decode_string("1,2,3").unwrap();
    let mut expected = String::from("1,2,3");
    for _ in 3..BYTES_LEN {
        expected.push_str(",0");
    }
    assert_eq!(decoded.to_decodable_string(), expected);
}

#[test]
fn decode_ignores_segments_past_the_width() {
    let mut wire = vec!["1"; BYTES_LEN].join(",");
    let all_ones = ToastId::try_decode_string(&wire).unwrap();
    wire.push_str(",x"); // segment 65 is never parsed
    assert_eq!(ToastId::try_decode_string(&wire), Some(all_ones));
}

#[test]
fn decode_rejects_malformed_segments() {
    assert_eq!(ToastId::try_decode_string(""), None);
    assert_eq!(ToastId::try_decode_string("1,,2"), None);
    assert_eq!(ToastId::try_decode_string("12,x"), None);
    assert_eq!(ToastId::try_decode_string("256"), None);
    assert_eq!(ToastId::try_decode_string("300,1"), None);
    assert_eq!(ToastId::try_decode_string("1,2,"), None);
}

#[test]
fn decode_accepts_boundary_values() {
    let id = ToastId::try_decode_string("255,0,255").unwrap();
    let wire = id.to_decodable_string();
    assert!(wire.starts_with("255,0,255,0"));
}
