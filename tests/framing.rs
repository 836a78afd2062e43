use mnc::error::LibError;
use mnc::framing::{
    binary_frame_length, decode_binary, decode_text, encode_binary, encode_text, text_line_end,
    FrameError, MAX_PACKET_SIZE,
};
use mnc::packet::Packet;

fn payloads(ps: &[Packet]) -> Vec<Vec<u8>> {
    ps.iter().map(|p| p.bytes().to_vec()).collect()
}

#[test]
fn binary_file_round_trip() {
    let input = vec![4, 0, 0, 0, b'A', b'B', b'C', b'D', 2, 0, 0, 0, b'X', b'Y'];
    let packets = decode_binary(&input).unwrap();
    assert_eq!(packets.len(), 2);
    assert_eq!(payloads(&packets), vec![b"ABCD".to_vec(), b"XY".to_vec()]);
    assert_eq!(encode_binary(&packets), input);
}

#[test]
fn binary_round_trip_of_batches() {
    let packets = vec![Packet::new(vec![]), Packet::new(vec![0, 1, 2]), Packet::new(vec![9; 300])];
    let decoded = decode_binary(&encode_binary(&packets)).unwrap();
    assert_eq!(payloads(&decoded), payloads(&packets));
}

#[test]
fn oversize_frame_is_rejected() {
    assert_eq!(binary_frame_length(&[0x00, 0x00, 0x02, 0x00]), Err(FrameError::TooLarge(131_072)));
    assert_eq!(binary_frame_length(&[0x00, 0x00, 0x01, 0x00]), Ok(MAX_PACKET_SIZE));
    match FrameError::TooLarge(131_072).to_lib_error() {
        LibError::Critical(m) => assert_eq!(m, "Packet too large: 131072 bytes"),
        _ => panic!("expected a critical error"),
    }
    assert_eq!(decode_binary(&[0x00, 0x00, 0x02, 0x00, 1, 2]), Err(FrameError::TooLarge(131_072)));
}

#[test]
fn truncated_record_fails_and_short_prefix_ends_cleanly() {
    assert_eq!(decode_binary(&[3, 0, 0, 0, b'a']), Err(FrameError::Truncated));
    assert!(matches!(FrameError::Truncated.to_lib_error(), LibError::UnexpectedEof));
    let packets = decode_binary(&[1, 0, 0, 0, b'a', 7, 7]).unwrap();
    assert_eq!(payloads(&packets), vec![b"a".to_vec()]);
    assert!(decode_binary(&[]).unwrap().is_empty());
}

#[test]
fn text_round_trip_adds_missing_newlines() {
    let packets = vec![
        Packet::new(b"one\n".to_vec()),
        Packet::new(b"two".to_vec()),
        Packet::new(vec![]),
    ];
    let encoded = encode_text(&packets);
    assert_eq!(encoded, b"one\ntwo\n\n".to_vec());
    let decoded = decode_text(&encoded);
    assert_eq!(payloads(&decoded), vec![b"one\n".to_vec(), b"two\n".to_vec(), b"\n".to_vec()]);
}

#[test]
fn text_lines_keep_a_last_line_without_newline() {
    let decoded = decode_text(b"a\nbc");
    assert_eq!(payloads(&decoded), vec![b"a\n".to_vec(), b"bc".to_vec()]);
    assert_eq!(text_line_end(b"a\nbc", 0), 2);
    assert_eq!(text_line_end(b"a\nbc", 2), 4);
    assert!(decode_text(b"").is_empty());
}

#[test]
fn packet_view_is_clamped_to_the_buffer() {
    let mut p = Packet::with_capacity(8);
    assert_eq!(p.len(), 8);
    assert_eq!(p.bytes(), &[0u8; 8]);
    p.data_mut()[0] = 7;
    p.set_length(3);
    assert_eq!(p.bytes(), &[7, 0, 0]);
    assert!(!p.is_empty());
    p.set_length(100);
    assert_eq!(p.len(), 8);
    p.set_length(0);
    assert!(p.is_empty());
    assert_eq!(p.len(), 0);
}
