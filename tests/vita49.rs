use mnc::packet::{Packet, PacketType};
use mnc::statistics::{StatsState, Vita49State};
use mnc::vita49::parse_header;

#[test]
fn test_parse_header_valid() {
    let packet = vec![b'V', b'R', b'L', b'P', 0x12, 0x34, 0x56, 0x78];

    let header = parse_header(&packet);
    assert_eq!(header.frame_sequence_number, 0x123);
    assert_eq!(header.frame_size, 0x45678);
}

#[test]
fn parse_header_rejects_wrong_magic() {
    let header = parse_header(&[b'V', b'R', b'L', b'Q', 0x12, 0x34, 0x56, 0x78]);
    assert_eq!((header.frame_sequence_number, header.frame_size), (0, 0));
}

#[test]
fn parse_header_rejects_short_packets() {
    let header = parse_header(&[b'V', b'R', b'L', b'P', 0x12, 0x34, 0x56]);
    assert_eq!((header.frame_sequence_number, header.frame_size), (0, 0));
    let header = parse_header(&[]);
    assert_eq!((header.frame_sequence_number, header.frame_size), (0, 0));
}

fn vrlp(seq: u16) -> Vec<u8> {
    let word = (u32::from(seq) << 20) | 8;
    let mut p = b"VRLP".to_vec();
    p.extend_from_slice(&word.to_be_bytes());
    p
}

#[test]
fn vrlp_gap_counts_and_wraps() {
    let mut state = Vita49State::new();
    for seq in [1u16, 2, 4] {
        state.process_packet(&vrlp(seq));
    }
    assert_eq!(state.skipped_in_period, 1);
    let mut state = Vita49State::new();
    for seq in [0xFFEu16, 0x001] {
        state.process_packet(&vrlp(seq));
    }
    assert_eq!(state.skipped_in_period, 2);
    assert_eq!(state.last_seq, Some(1));
}

#[test]
fn vrlp_window_report() {
    let mut stats = StatsState::new(PacketType::Vita49);
    let batch = vec![Packet::new(vrlp(7)), Packet::new(vrlp(9))];
    stats.process_batch(&batch);
    assert_eq!(stats.summary(), "  skipped: 1");
}

#[test]
fn vrlp_header_listing() {
    let text = parse_header(&[b'V', b'R', b'L', b'P', 0x12, 0x34, 0x56, 0x78]).render();
    let expected = format!(
        "VITA49 Header:\n  {:<24}:  VRLP\n  {:<24}: {:<25} {:012b}\n  {:<24}: {:<25} {:020b}\n",
        "Identifier", "Frame Sequence (12)", 0x123, 0x123, "Frame Size (20)", 0x45678, 0x45678
    );
    assert_eq!(text, expected);
}
