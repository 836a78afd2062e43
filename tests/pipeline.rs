use crossbeam_channel::bounded;
use mnc::config::{
    default_log_filter, effective_max_count, find_interface_addr, grace_check, is_dash, parse_mgroup, stats_enabled,
    GraceCheck,
};
use mnc::error::LibError;
use mnc::hexdump::hex_dump_lines;
use mnc::packet::{Packet, PacketBatch, PacketType};
use mnc::reader::{
    clamp_send_count, count_reached, new_slab, publish_batch, received_count, reset_slab,
    select_source, send_result, take_received, write_batch_to_channel, ReaderSource, SendStatus,
};
use mnc::shared::SharedState;
use mnc::writer::{gather_packets, select_sink, WriterSink, SEND_BATCH_SIZE};
use std::sync::Arc;

#[test]
fn text_count_gate_stops_after_three_lines() {
    let shared = SharedState::new(PacketType::Text, false);
    let (tx, rx) = bounded::<PacketBatch>(16);
    let lines = ["l1\n", "l2\n", "l3\n", "l4\n", "l5\n", "l6\n"];
    let max_count = effective_max_count(false, Some(3));
    let mut sent = 0;
    for line in lines {
        if shared.should_exit() {
            break;
        }
        let out = publish_batch(vec![Packet::new(line.as_bytes().to_vec())], &tx, &None, &shared, max_count)
            .unwrap_or_else(|_| panic!("channel is connected"));
        sent += 1;
        if out.stop {
            break;
        }
    }
    assert_eq!(sent, 3);
    assert!(shared.should_exit());
    assert_eq!(shared.get_count(), 3);
    let got: Vec<Vec<u8>> = rx.try_iter().map(|b| b[0].bytes().to_vec()).collect();
    assert_eq!(got, vec![b"l1\n".to_vec(), b"l2\n".to_vec(), b"l3\n".to_vec()]);
}

#[test]
fn full_channel_drops_without_blocking() {
    let shared = SharedState::new(PacketType::Binary, false);
    let (tx, rx) = bounded::<PacketBatch>(1);
    let (stx, _srx) = bounded::<PacketBatch>(8);
    let first = publish_batch(vec![Packet::new(vec![1])], &tx, &Some(stx.clone()), &shared, 0)
        .unwrap_or_else(|_| panic!("connected"));
    assert!(!first.data_dropped && !first.stats_dropped && !first.stop);
    let second = publish_batch(vec![Packet::new(vec![2])], &tx, &Some(stx), &shared, 0)
        .unwrap_or_else(|_| panic!("connected"));
    assert!(second.data_dropped);
    assert!(!second.stats_dropped);
    assert_eq!(second.total, 2);
    assert_eq!(rx.len(), 1);
}

#[test]
fn disconnected_channel_is_critical() {
    let (tx, rx) = bounded::<PacketBatch>(1);
    drop(rx);
    let batch: PacketBatch = Arc::new(vec![Packet::new(vec![1])]);
    match write_batch_to_channel(&batch, &tx) {
        Err(LibError::Critical(m)) => assert_eq!(m, "channel disconnected"),
        _ => panic!("expected a critical error"),
    }
    assert!(matches!(send_result(SendStatus::Full), Ok(true)));
    assert!(matches!(send_result(SendStatus::Sent), Ok(false)));
}

#[test]
fn max_count_clamps_the_last_batch() {
    assert_eq!(clamp_send_count(10, 0, 500), 10);
    assert_eq!(clamp_send_count(10, 25, 20), 5);
    assert_eq!(clamp_send_count(10, 25, 30), 0);
    assert_eq!(clamp_send_count(3, 25, 20), 3);
    assert!(count_reached(25, 25));
    assert!(!count_reached(25, 24));
    assert!(!count_reached(0, 1000));
}

#[test]
fn received_datagrams_are_copied_out_of_the_slab() {
    let mut slab = new_slab(4, 16);
    for (i, p) in slab.iter_mut().enumerate() {
        p.data_mut()[0] = i as u8 + 1;
    }
    let counts = [2usize, 3, 0, 5];
    let received = received_count(&counts);
    assert_eq!(received, 2);
    let batch = take_received(&mut slab, &counts, received, clamp_send_count(received, 1, 0));
    assert_eq!(batch.len(), 1);
    assert_eq!(batch[0].bytes(), &[1, 0]);
    assert_eq!(slab[1].len(), 3);
    reset_slab(&mut slab, 16);
    assert_eq!(slab[0].len(), 16);
    // The published copy is untouched by the slab's reuse.
    assert_eq!(batch[0].bytes(), &[1, 0]);
}

#[test]
fn sendmmsg_gathers_at_most_the_batch_size() {
    let a: PacketBatch = Arc::new((0..20u8).map(|i| Packet::new(vec![i])).collect());
    let b: PacketBatch = Arc::new((20..40u8).map(|i| Packet::new(vec![i])).collect());
    let gathered = gather_packets(&vec![a.clone(), b], SEND_BATCH_SIZE);
    assert_eq!(gathered.len(), 32);
    assert_eq!(gathered[31].bytes(), &[31]);
    let few = gather_packets(&vec![a], SEND_BATCH_SIZE);
    assert_eq!(few.len(), 20);
}

#[test]
fn sources_and_sinks() {
    assert_eq!(select_source(&Some("-".to_string())), ReaderSource::Stdin);
    assert_eq!(select_source(&Some("in.bin".to_string())), ReaderSource::File);
    assert_eq!(select_source(&None), ReaderSource::Network);
    assert_eq!(select_sink(&Some("-".to_string()), true), WriterSink::Stdout);
    assert_eq!(select_sink(&Some("--".to_string()), false), WriterSink::File);
    assert_eq!(select_sink(&None, true), WriterSink::Network);
    assert_eq!(select_sink(&None, false), WriterSink::Devnull);
    assert!(is_dash("-"));
    assert!(!is_dash(""));
}

#[test]
fn settings_from_flags() {
    assert_eq!(effective_max_count(true, None), 1);
    assert_eq!(effective_max_count(true, Some(0)), 0);
    assert_eq!(effective_max_count(false, None), 0);
    assert!(stats_enabled(false, true, false));
    assert!(stats_enabled(false, false, true));
    assert!(!stats_enabled(true, true, true));
    assert_eq!(default_log_filter(true, true), "debug");
    assert_eq!(default_log_filter(false, true), "warn");
    assert_eq!(default_log_filter(false, false), "info");
}

#[test]
fn grace_timer_starts_once_and_expires() {
    assert_eq!(grace_check(false, None, 5), GraceCheck::Running);
    assert_eq!(grace_check(true, None, 5), GraceCheck::Start);
    assert_eq!(grace_check(true, Some(5), 1005), GraceCheck::Waiting);
    assert_eq!(grace_check(true, Some(5), 1006), GraceCheck::Expired);
}

#[test]
fn mgroup_with_and_without_interface() {
    assert_eq!(parse_mgroup("239.1.1.1"), Ok((None, "239.1.1.1".to_string())));
    assert_eq!(
        parse_mgroup("eth1:239.10.100.1"),
        Ok((Some("eth1".to_string()), "239.10.100.1".to_string()))
    );
    assert_eq!(
        parse_mgroup("239.1.1"),
        Err("Expected [eth:]mgroup, got: 239.1.1".to_string())
    );
    assert!(parse_mgroup(":239.1.1.1").is_err());
    assert!(parse_mgroup("a:b:239.1.1.1").is_err());
    assert!(parse_mgroup("2390.1.1.1").is_err());
    assert!(parse_mgroup("239.1.1.1.").is_err());
}

#[test]
fn hex_dump_matches_od_layout() {
    let data: Vec<u8> = (0x41..0x41 + 18).collect();
    let lines = hex_dump_lines(&data);
    assert_eq!(lines.len(), 2);
    assert_eq!(
        lines[0],
        "00000000  41 42 43 44 45 46 47 48  49 4a 4b 4c 4d 4e 4f 50  |ABCDEFGHIJKLMNOP|"
    );
    assert_eq!(
        lines[1],
        "00000010  51 52 00 00 00 00 00 00  00 00 00 00 00 00 00 00  |QR|"
            .replace(" 00", "   ")
    );
    let odd = hex_dump_lines(&[0x00, b' ', 0x7f]);
    assert!(odd[0].ends_with("|. .|"));
    assert!(hex_dump_lines(&[]).is_empty());
}

#[test]
fn packet_type_names() {
    assert_eq!(PacketType::Vita49.name(), "vita49");
    assert_eq!(PacketType::Text.name(), "text");
}

#[test]
fn interface_lookup_takes_the_first_ipv4_entry() {
    let entries = vec![
        ("lo".to_string(), Some(0x7f00_0001)),
        ("eth0".to_string(), None),
        ("eth0".to_string(), Some(0x0a00_0002)),
        ("eth0".to_string(), Some(0x0a00_0003)),
    ];
    assert_eq!(find_interface_addr(&entries, "eth0"), Some(0x0a00_0002));
    assert_eq!(find_interface_addr(&entries, "eth1"), None);
}
