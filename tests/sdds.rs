use mnc::sdds::{
    bits_per_sample, cx, data_mode, format_timestamp, frame_sequence_number, of, pp, sddstime, sf,
    snp, sos, ss, time_tag, time_tag_ext, vw, SddsHeader,
};
use mnc::packet::PacketBatch;
use mnc::statistics::{SddsState, StatsState, StatsWindow};
use std::sync::Arc;
use mnc::packet::{Packet, PacketType};

#[test]
fn test_frame_sequence_number() {
    let packet = vec![0, 0, 0x12, 0x34];
    assert_eq!(frame_sequence_number(&packet), 0x1234);
}

#[test]
fn test_time_tag() {
    let mut packet = vec![0; 16];
    if let Some(slice) = packet.get_mut(8..16) {
        slice.copy_from_slice(&0x0123456789ABCDEFu64.to_be_bytes());
    }
    assert_eq!(time_tag(&packet), 0x0123456789ABCDEF);
}

#[test]
fn test_sddstime() {
    let (days, hours, mins, secs, nsecs) = sddstime(0);
    assert_eq!((days, hours, mins, secs, nsecs), (1, 0, 0, 0, 0));

    let one_day = 4_000_000_000u64 * 60 * 60 * 24;
    let (days, hours, mins, secs, nsecs) = sddstime(one_day);
    assert_eq!((days, hours, mins, secs, nsecs), (2, 0, 0, 0, 0));
}

#[test]
fn test_format_identifier() {
    let packet = vec![0b10110101, 0b11010111];
    assert_eq!(sf(&packet), true);
    assert_eq!(sos(&packet), false);
    assert_eq!(pp(&packet), true);
    assert_eq!(of(&packet), true);
    assert_eq!(ss(&packet), false);
    assert_eq!(data_mode(&packet), 0b101);
    assert_eq!(cx(&packet), true);
    assert_eq!(snp(&packet), true);
    assert_eq!(vw(&packet), false);
    assert_eq!(bits_per_sample(&packet), 0b10111);
}

#[test]
fn short_packets_decode_to_zero() {
    let packet = vec![0xFFu8; 3];
    assert_eq!(frame_sequence_number(&packet), 0);
    assert_eq!(time_tag(&packet), 0);
    assert_eq!(time_tag_ext(&packet), 0);
    assert_eq!(sf(&[]), false);
    assert_eq!(bits_per_sample(&[0xFF]), 0);
}

#[test]
fn time_tag_ext_reads_bytes_sixteen_to_twenty() {
    let mut packet = vec![0u8; 20];
    packet[16..20].copy_from_slice(&[0xDE, 0xAD, 0xBE, 0xEF]);
    assert_eq!(time_tag_ext(&packet), 0xDEADBEEF);
}

#[test]
fn sddstime_splits_every_field() {
    // 1 day, 2 h, 3 min, 4 s and 5 ns.
    let secs = 86_400u64 + 2 * 3600 + 3 * 60 + 4;
    let tag = secs * 4_000_000_000 + 20;
    assert_eq!(sddstime(tag), (2, 2, 3, 4, 5));
}

#[test]
fn timestamp_is_zero_padded() {
    assert_eq!(format_timestamp(0), "001:00:00:00:000000000");
    let secs = 86_400u64 + 2 * 3600 + 3 * 60 + 4;
    assert_eq!(format_timestamp(secs * 4_000_000_000 + 20), "002:02:03:04:000000005");
}

fn sdds_packet(seq: u16) -> Packet {
    let mut data = vec![0u8; 1080];
    data[2..4].copy_from_slice(&seq.to_be_bytes());
    Packet::new(data)
}

#[test]
fn sdds_gap_counts_missing_frames() {
    let mut state = SddsState::new();
    for seq in [1u16, 2, 3, 5] {
        state.process_packet(sdds_packet(seq).bytes());
    }
    assert_eq!(state.skipped_in_period, 1);
    assert_eq!(state.latest_timestamp, "001:00:00:00:000000000");
}

#[test]
fn sdds_parity_frames_are_exempt() {
    let mut state = SddsState::new();
    for seq in [31u16, 32, 33] {
        state.process_packet(sdds_packet(seq).bytes());
    }
    assert_eq!(state.skipped_in_period, 0);
}

#[test]
fn sdds_parity_rule_can_be_switched_off() {
    let mut state = SddsState::new();
    state.parity_exempt = false;
    for seq in [30u16, 32] {
        state.process_packet(sdds_packet(seq).bytes());
    }
    assert_eq!(state.skipped_in_period, 1);
}

#[test]
fn sdds_gap_wraps_at_sixteen_bits() {
    let mut state = SddsState::new();
    for seq in [65533u16, 1] {
        state.process_packet(sdds_packet(seq).bytes());
    }
    // 65534, 65535 and 0 (a parity frame, but missing all the same) are gone.
    assert_eq!(state.skipped_in_period, 3);
}

#[test]
fn sdds_window_report() {
    let mut stats = StatsState::new(PacketType::Sdds);
    let batch = vec![sdds_packet(1), sdds_packet(2), sdds_packet(3), sdds_packet(5)];
    assert_eq!(stats.process_batch(&batch), 4);
    assert_eq!(
        stats.report_line(4, "2.00"),
        "packets: 4  rate: 2.00 pkt/s  skipped: 1  time: 001:00:00:00:000000000"
    );
    let plain = StatsState::new(PacketType::Text);
    assert_eq!(plain.report_line(7, "3.50"), "packets: 7  rate: 3.50 pkt/s");
}

#[test]
fn sdds_header_listing() {
    let mut data = vec![0u8; 20];
    data[0] = 0b10110101;
    data[1] = 0b11010111;
    data[2..4].copy_from_slice(&5u16.to_be_bytes());
    let text = SddsHeader::new(&data).render();
    let lines: Vec<&str> = text.lines().collect();
    assert_eq!(lines.len(), 14);
    assert_eq!(lines[0], "SDDS Header:");
    assert_eq!(
        lines[1],
        format!("  {:24}: {:<25} {:016b}", "Frame Sequence (16)", 5, 5u16)
    );
    assert_eq!(
        lines[2],
        format!("  {:24}: {:<25} {:064b}", "Time Tag (64)", "001:00:00:00:000000000", 0u64)
    );
    assert_eq!(lines[4], format!("    {:22}: {:<25} {}", "SF (1)", 1, 1));
    assert_eq!(lines[9], format!("    {:22}: {:<30} {:03b}", "Data Mode (3)", 5, 5));
    assert_eq!(lines[13], format!("    {:22}: {:<36} {:05b}", "Bits per Sample (5)", 23, 23));
    assert!(text.ends_with('\n'));
}

#[test]
fn stats_window_reports_every_two_seconds_and_resets() {
    let mut window = StatsWindow::new(PacketType::Sdds);
    window.observe(&vec![sdds_packet(1), sdds_packet(2)]);
    window.observe(&vec![sdds_packet(3), sdds_packet(5)]);
    assert_eq!(window.count, 4);
    assert_eq!(window.tick(1999, "2.00"), None);
    assert_eq!(window.count, 4);
    assert_eq!(
        window.tick(2000, "2.00").as_deref(),
        Some("packets: 4  rate: 2.00 pkt/s  skipped: 1  time: 001:00:00:00:000000000")
    );
    assert_eq!(window.count, 0);
    assert_eq!(window.state.summary(), "  skipped: 0");
}

#[test]
fn stats_window_drains_queued_batches_in_order() {
    let mut window = StatsWindow::new(PacketType::Sdds);
    window.observe(&vec![sdds_packet(1)]);
    let rest: Vec<PacketBatch> = vec![
        Arc::new(vec![sdds_packet(2), sdds_packet(4)]),
        Arc::new(vec![sdds_packet(7)]),
    ];
    window.drain(&rest);
    assert_eq!(window.state.summary(), "  skipped: 3  time: 001:00:00:00:000000000");
    assert_eq!(window.count, 1);
}
