//! Byte-exact tests of the record layout and the frame encoding.

use diegesis::framing::{decode_frame, encode_frame, find_terminator};
use diegesis::record::{parse_record, serialize_record, Record, RECORD_HEADER_BYTES};
use diegesis::encoder::decode_record_frame;

fn frame_of(payload: &[u8]) -> Vec<u8> {
    encode_frame(&payload.to_vec())
}

#[test]
fn serialized_record_layout_is_exact() {
    let rec = Record { channel_id: 2, timestamp: 0x0102_0304, payload: vec![0xAA] };
    let bytes = serialize_record(&rec);
    assert_eq!(bytes, vec![2, 0x04, 0x03, 0x02, 0x01, 1, 0, 0, 0, 0xAA]);
}

#[test]
fn record_round_trip() {
    let rec = Record { channel_id: 7, timestamp: 0xDEAD_BEEF, payload: vec![1, 2, 3, 0, 255] };
    let bytes = serialize_record(&rec);
    let back = parse_record(&bytes).expect("parses");
    assert_eq!(back.channel_id, 7);
    assert_eq!(back.timestamp, 0xDEAD_BEEF);
    assert_eq!(back.payload, vec![1, 2, 3, 0, 255]);
}

#[test]
fn record_rejects_bad_length_field() {
    let rec = Record { channel_id: 1, timestamp: 5, payload: vec![9, 9] };
    let mut bytes = serialize_record(&rec);
    bytes.push(0xFF); // one byte too many for the length field
    assert!(parse_record(&bytes).is_none());
    let short = vec![0u8; RECORD_HEADER_BYTES - 1];
    assert!(parse_record(&short).is_none());
}

#[test]
fn frame_bytes_are_exact() {
    assert_eq!(frame_of(&[]), vec![0]);
    assert_eq!(frame_of(&[7]), vec![7, 0]);
    assert_eq!(frame_of(&[0, 0, 5]), vec![1, 2, 5, 0]);
    assert_eq!(frame_of(&[1]), vec![2, 1, 1, 0]);
    assert_eq!(frame_of(&[2]), vec![2, 1, 2, 0]);
    assert_eq!(frame_of(&[9, 9]), vec![2, 2, 9, 0]);
}

#[test]
fn frame_round_trip_every_byte_value() {
    let payload: Vec<u8> = (0..=255u8).collect();
    let f = encode_frame(&payload);
    let back = decode_frame(&f).expect("decodes");
    assert_eq!(back, payload);
}

#[test]
fn frame_round_trip_all_zero_payload() {
    let payload = vec![0u8; 1000];
    let f = encode_frame(&payload);
    let back = decode_frame(&f).expect("decodes");
    assert_eq!(back, payload);
}

#[test]
fn frame_round_trip_long_runs() {
    let mut payload = vec![7u8; 600];
    payload.extend_from_slice(&[0; 300]);
    payload.extend_from_slice(&[1, 2, 1, 2]);
    let f = encode_frame(&payload);
    let back = decode_frame(&f).expect("decodes");
    assert_eq!(back, payload);
}

#[test]
fn frame_has_no_interior_terminator() {
    let mut payload = vec![0u8, 1, 2, 3, 0, 0, 0];
    payload.extend_from_slice(&(0..=255u8).collect::<Vec<_>>());
    let f = encode_frame(&payload);
    assert_eq!(*f.last().unwrap(), 0);
    for &b in &f[..f.len() - 1] {
        assert_ne!(b, 0);
    }
}

#[test]
fn decode_rejects_malformed_frames() {
    assert!(decode_frame(&vec![]).is_none());
    assert!(decode_frame(&vec![7]).is_none()); // no terminator
    assert!(decode_frame(&vec![0, 0]).is_none()); // raw terminator in body
    assert!(decode_frame(&vec![1, 0]).is_none()); // truncated zero-run token
    assert!(decode_frame(&vec![2, 1, 0]).is_none()); // truncated run token
    assert!(decode_frame(&vec![1, 0, 5, 0]).is_none()); // zero run length
}

#[test]
fn wire_round_trip_with_terminator_bytes_in_payload() {
    let rec = Record { channel_id: 4, timestamp: 42, payload: vec![0, 0, 9, 0, 1, 2] };
    let serialized = serialize_record(&rec);
    let wire = encode_frame(&serialized);
    // No unescaped terminator before the true frame end.
    for &b in &wire[..wire.len() - 1] {
        assert_ne!(b, 0);
    }
    let back = decode_record_frame(&wire).expect("decodes");
    assert_eq!(back.channel_id, 4);
    assert_eq!(back.timestamp, 42);
    assert_eq!(back.payload, vec![0, 0, 9, 0, 1, 2]);
}

#[test]
fn receiver_resynchronizes_on_terminator() {
    let mut stream = Vec::new();
    stream.extend_from_slice(&[9, 9, 9]); // tail of a corrupted frame
    stream.push(0);
    let good = frame_of(&[5, 6, 7]);
    stream.extend_from_slice(&good);
    let first = find_terminator(&stream).expect("has a terminator");
    let rest: Vec<u8> = stream[first + 1..].to_vec();
    let back = decode_frame(&rest).expect("second frame decodes");
    assert_eq!(back, vec![5, 6, 7]);
}
