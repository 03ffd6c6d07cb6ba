use archsockrust::framing::{decode_frame, encode_frame, length_prefix, read_length_prefix, FrameDecode};

#[test]
fn length_prefix_is_big_endian() {
    assert_eq!(length_prefix(258), [0, 0, 0, 0, 0, 0, 1, 2]);
    assert_eq!(length_prefix(u64::MAX), [255; 8]);
    assert_eq!(read_length_prefix(&[0, 0, 0, 0, 0, 0, 1, 2]), 258);
    assert_eq!(read_length_prefix(&1_234_567_890_123u64.to_be_bytes()), 1_234_567_890_123);
}

#[test]
fn encode_frame_prefixes_payload_length() {
    assert_eq!(encode_frame(b"abc"), vec![0, 0, 0, 0, 0, 0, 0, 3, b'a', b'b', b'c']);
    assert_eq!(encode_frame(&[]), vec![0; 8]);
}

#[test]
fn frame_round_trip_with_trailing_bytes() {
    let payload: Vec<u8> = (0..10240u32).map(|i| (i % 251) as u8).collect();
    let mut stream = encode_frame(&payload);
    stream.extend_from_slice(&[9, 9, 9]);
    assert_eq!(decode_frame(&stream), FrameDecode::Complete { payload, consumed: 8 + 10240 });
}

#[test]
fn short_buffers_are_incomplete() {
    assert_eq!(decode_frame(&[0, 0, 0]), FrameDecode::Incomplete);
    let frame = encode_frame(b"hello");
    assert_eq!(decode_frame(&frame[..frame.len() - 1]), FrameDecode::Incomplete);
    assert_eq!(decode_frame(&frame), FrameDecode::Complete { payload: b"hello".to_vec(), consumed: 13 });
}
