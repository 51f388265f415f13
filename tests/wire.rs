use player::wire::{decode, decode_compressed_video, elementary_unit, DecodeError};

fn le_u32(v: u32) -> Vec<u8> {
    v.to_le_bytes().to_vec()
}

fn be_u32(v: u32) -> Vec<u8> {
    v.to_be_bytes().to_vec()
}

fn pad_to4(b: &mut Vec<u8>) {
    while b.len() % 4 != 0 {
        b.push(0);
    }
}

/// A message built field by field, each length field at a multiple of four.
fn message(le: bool, sec: u32, nsec: u32, frame_id: &[u8], data: &[u8], format: &[u8]) -> Vec<u8> {
    let put = |v: u32| if le { le_u32(v) } else { be_u32(v) };
    let mut b = vec![0u8, if le { 1 } else { 0 }, 0, 0];
    b.extend(put(sec));
    b.extend(put(nsec));
    b.extend(put(frame_id.len() as u32 + 1));
    b.extend_from_slice(frame_id);
    b.push(0);
    pad_to4(&mut b);
    b.extend(put(data.len() as u32));
    b.extend_from_slice(data);
    pad_to4(&mut b);
    b.extend(put(format.len() as u32 + 1));
    b.extend_from_slice(format);
    b.push(0);
    b
}

#[test]
fn example_message_decodes() {
    let mut b = vec![0x00, 0x01, 0x00, 0x00];
    b.extend(le_u32(1_700_000_000));
    b.extend(le_u32(250));
    b.extend([0x05, 0x00, 0x00, 0x00, b'a', b'b', b'c', 0x00]);
    b.extend([0x00, 0x00, 0x00, 0x00]); // last declared byte, then padding to a multiple of four
    b.extend([0x03, 0x00, 0x00, 0x00, 0x01, 0x02, 0x03]);
    b.push(0x00); // padding to a multiple of four
    b.extend([0x04, 0x00, 0x00, 0x00, b'h', b'2', b'6', 0x00]);
    let v = decode(&b).unwrap();
    assert_eq!(v.data, vec![1, 2, 3]);
    assert_eq!(v.format, "h26");
    assert_eq!(decode_compressed_video(&b), Some((vec![1, 2, 3], "h26".to_string())));
}

#[test]
fn example_message_with_exact_frame_id() {
    let mut b = vec![0x00, 0x01, 0x00, 0x00];
    b.extend(le_u32(1_700_000_000));
    b.extend(le_u32(250));
    b.extend([0x04, 0x00, 0x00, 0x00, b'a', b'b', b'c', 0x00]);
    b.extend([0x03, 0x00, 0x00, 0x00, 0x01, 0x02, 0x03]);
    b.push(0x00); // padding to a multiple of four
    b.extend([0x04, 0x00, 0x00, 0x00, b'h', b'2', b'6', 0x00]);
    let v = decode(&b).unwrap();
    assert_eq!(v.data, vec![1, 2, 3]);
    assert_eq!(v.format, "h26");
    assert_eq!(v.frame_id, "abc");
    assert_eq!(v.timestamp.sec, 1_700_000_000);
    assert_eq!(v.timestamp.nsec, 250);
}

#[test]
fn round_trip_little_endian() {
    let data: Vec<u8> = (0..37u8).collect();
    let b = message(true, 7, 9, b"camera_optical", &data, b"h264");
    let v = decode(&b).unwrap();
    assert_eq!(v.data, data);
    assert_eq!(v.format, "h264");
    assert_eq!(v.frame_id, "camera_optical");
    assert_eq!((v.timestamp.sec, v.timestamp.nsec), (7, 9));
}

#[test]
fn round_trip_big_endian() {
    let data = vec![0u8, 0, 0, 1, 0x65, 0x88];
    let b = message(false, 0x0102_0304, 5, b"f", &data, b"h265");
    let v = decode(&b).unwrap();
    assert_eq!(v.data, data);
    assert_eq!(v.format, "h265");
    assert_eq!(v.timestamp.sec, 0x0102_0304);
}

#[test]
fn round_trip_empty_data_and_id() {
    let b = message(true, 0, 0, b"", &[], b"av1");
    let v = decode(&b).unwrap();
    assert!(v.data.is_empty());
    assert_eq!(v.frame_id, "");
    assert_eq!(v.format, "av1");
}

#[test]
fn short_buffers_fail_too_short() {
    for n in 0..4usize {
        let b = vec![0u8; n];
        assert_eq!(decode(&b).err(), Some(DecodeError::TooShort));
        assert_eq!(decode_compressed_video(&b), None);
    }
}

#[test]
fn header_only_is_truncated() {
    assert_eq!(decode(&[0, 1, 0, 0]).err(), Some(DecodeError::Truncated));
    assert_eq!(decode(&[0, 1, 0, 0, 1, 2, 3, 4, 5]).err(), Some(DecodeError::Truncated));
}

#[test]
fn every_cut_of_a_message_is_truncated() {
    let b = message(true, 1, 2, b"id", &[9, 8, 7, 6, 5], b"h264");
    for n in 4..b.len() {
        assert_eq!(decode(&b[..n]).err(), Some(DecodeError::Truncated), "cut at {}", n);
    }
    assert!(decode(&b).is_ok());
}

#[test]
fn overlong_data_length_is_truncated() {
    let mut b = message(true, 1, 2, b"id", &[1, 2, 3, 4], b"h264");
    // data length field sits at offset 20 (16 + "id\0" = 19, aligned to 20)
    b[20..24].copy_from_slice(&le_u32(u32::MAX));
    assert_eq!(decode(&b).err(), Some(DecodeError::Truncated));
}

#[test]
fn overlong_frame_id_length_is_truncated() {
    let mut b = message(true, 1, 2, b"id", &[1], b"h264");
    b[12..16].copy_from_slice(&le_u32(1000));
    assert_eq!(decode(&b).err(), Some(DecodeError::Truncated));
}

#[test]
fn zero_length_text_fields_are_truncated() {
    let mut b = vec![0u8, 1, 0, 0];
    b.extend(le_u32(1));
    b.extend(le_u32(2));
    b.extend(le_u32(0)); // frame_id declares no bytes, not even the terminator
    b.extend(le_u32(0)); // empty data
    b.extend(le_u32(5));
    b.extend(b"h264\0");
    assert_eq!(decode(&b).err(), Some(DecodeError::Truncated));

    let mut c = message(true, 1, 2, b"x", &[1, 2, 3, 4], b"h264");
    let n = c.len();
    c.truncate(n - 9);
    c.extend(le_u32(0)); // format declares length zero
    assert_eq!(decode(&c).err(), Some(DecodeError::Truncated));
}

#[test]
fn invalid_utf8_text_is_replaced() {
    let b = message(true, 0, 0, &[0xff], &[1], &[b'h', 0xfe]);
    let v = decode(&b).unwrap();
    assert_eq!(v.frame_id, "\u{FFFD}");
    assert_eq!(v.format, "h\u{FFFD}");
}

#[test]
fn ingest_forwards_data_of_well_formed_message() {
    let b = message(true, 0, 0, b"cam", &[0, 0, 1, 0x65], b"h264");
    assert_eq!(elementary_unit(&b), Some(vec![0, 0, 1, 0x65]));
}

#[test]
fn ingest_forwards_raw_payload_of_malformed_message() {
    let raw = vec![0u8, 0, 0, 1, 0x67, 0x42];
    assert_eq!(elementary_unit(&raw), Some(raw.clone()));
    assert_eq!(elementary_unit(&[1, 2]), Some(vec![1, 2]));
}

#[test]
fn ingest_drops_empty_payload_and_empty_data() {
    assert_eq!(elementary_unit(&[]), None);
    let b = message(true, 0, 0, b"cam", &[], b"h264");
    assert_eq!(elementary_unit(&b), None);
}
