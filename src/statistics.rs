//! Per-window accumulators of the statistics stage: sequence gap accounting
//! for SDDS and VRLP streams, and the protocol part of the report line.
use vstd::prelude::*;
use vstd::string::*;

use crate::framing::{batch_payloads, payloads};
use crate::packet::{Packet, PacketBatch, PacketType};
use crate::sdds::{
    format_timestamp, frame_sequence_number, spec_frame_sequence_number, spec_time_tag, time_tag,
    timestamp_text,
};
use crate::text::{digits, push_digits};
use crate::vita49::{parse_header, spec_parse_header};

verus! {

/// Every SDDS frame whose sequence number is a multiple of this is a parity
/// frame.
pub const SDDS_PARITY_INTERVAL: u16 = 32;

/// `a + b`, held at `u64::MAX`.
pub open spec fn sat_add(a: u64, b: nat) -> u64 {
    if a + b > u64::MAX { u64::MAX } else { (a + b) as u64 }
}

/// Frames missing between `prev` and `seq` on a 16-bit sequence.
pub open spec fn sdds_gap(prev: u16, seq: u16) -> nat {
    ((seq - prev - 1) % 0x10000) as nat
}

/// Frames missing between `prev` and `seq` on a 12-bit sequence.
pub open spec fn vrlp_gap(prev: u16, seq: u16) -> nat {
    ((seq - prev - 1) % 0x1000) as nat
}

/// What an SDDS accumulator holds.
pub struct SddsModel {
    pub last_seq: Option<u16>,
    pub skipped: u64,
    pub timestamp: Seq<char>,
    pub parity_exempt: bool,
}

/// The SDDS accumulator after one more packet. A parity frame only moves
/// the last sequence number, when the parity rule is on.
pub open spec fn sdds_step(m: SddsModel, p: Seq<u8>) -> SddsModel {
    let seq = spec_frame_sequence_number(p) as u16;
    if m.parity_exempt && seq % 32 == 0 {
        SddsModel { last_seq: Some(seq), ..m }
    } else {
        SddsModel {
            last_seq: Some(seq),
            skipped: match m.last_seq {
                Some(prev) => sat_add(m.skipped, sdds_gap(prev, seq)),
                None => m.skipped,
            },
            timestamp: timestamp_text(spec_time_tag(p)),
            parity_exempt: m.parity_exempt,
        }
    }
}

/// Sequence accounting for SDDS frames over one report window.
pub struct SddsState {
    pub last_seq: Option<u16>,
    pub skipped_in_period: u64,
    pub latest_timestamp: String,
    /// Whether parity frames are left out of gap accounting.
    pub parity_exempt: bool,
}

impl View for SddsState {
    type V = SddsModel;

    open spec fn view(&self) -> SddsModel {
        SddsModel {
            last_seq: self.last_seq,
            skipped: self.skipped_in_period,
            timestamp: self.latest_timestamp@,
            parity_exempt: self.parity_exempt,
        }
    }
}

impl SddsState {
    /// A fresh window, with parity frames exempt.
    pub fn new() -> (r: SddsState)
        ensures
            r@ == (SddsModel {
                last_seq: None,
                skipped: 0,
                timestamp: Seq::empty(),
                parity_exempt: true,
            }),
    {
        SddsState {
            last_seq: None,
            skipped_in_period: 0,
            latest_timestamp: String::new(),
            parity_exempt: true,
        }
    }

    pub fn process_packet(&mut self, packet: &[u8])
        ensures
            final(self)@ == sdds_step(old(self)@, packet@),
    {
        let seq = frame_sequence_number(packet);
        if self.parity_exempt && seq % SDDS_PARITY_INTERVAL == 0 {
            self.last_seq = Some(seq);
            return;
        }
        if let Some(prev) = self.last_seq {
            let expected = prev.wrapping_add(1);
            if seq != expected {
                let skipped: u64 = if seq > expected {
                    (seq - expected) as u64
                } else {
                    (u16::MAX - expected + seq + 1) as u64
                };
                assert(skipped == sdds_gap(prev, seq));
                self.skipped_in_period = if self.skipped_in_period > u64::MAX - skipped {
                    u64::MAX
                } else {
                    self.skipped_in_period + skipped
                };
            } else {
                assert(sdds_gap(prev, seq) == 0);
            }
        }
        self.last_seq = Some(seq);
        self.latest_timestamp = format_timestamp(time_tag(packet));
    }
}

/// Sequence accounting for VRLP frames over one report window.
#[derive(Debug, Clone, Copy, PartialEq, Eq, Structural)]
pub struct Vita49State {
    pub last_seq: Option<u16>,
    pub skipped_in_period: u64,
}

/// The VRLP accumulator after one more packet.
pub open spec fn vrlp_step(s: Vita49State, p: Seq<u8>) -> Vita49State {
    let seq = spec_parse_header(p).0 as u16;
    Vita49State {
        last_seq: Some(seq),
        skipped_in_period: match s.last_seq {
            Some(prev) => sat_add(s.skipped_in_period, vrlp_gap(prev, seq)),
            None => s.skipped_in_period,
        },
    }
}

impl Vita49State {
    pub fn new() -> (r: Vita49State)
        ensures
            r == (Vita49State { last_seq: None, skipped_in_period: 0 }),
    {
        Vita49State { last_seq: None, skipped_in_period: 0 }
    }

    pub fn process_packet(&mut self, packet: &[u8])
        ensures
            *final(self) == vrlp_step(*old(self), packet@),
    {
        let header = parse_header(packet);
        let seq = header.frame_sequence_number;
        if let Some(prev) = self.last_seq {
            let expected: u64 = (prev as u64 + 1) % 0x1000;
            let skipped: u64 = if seq as u64 >= expected {
                seq as u64 - expected
            } else {
                0x1000 - expected + seq as u64
            };
            assert(skipped == vrlp_gap(prev, seq));
            self.skipped_in_period = if self.skipped_in_period > u64::MAX - skipped {
                u64::MAX
            } else {
                self.skipped_in_period + skipped
            };
        }
        self.last_seq = Some(seq);
    }
}

/// The accumulator of one report window, by packet type.
pub enum StatsState {
    /// Text and binary streams carry no sequence numbers.
    Plain,
    Sdds(SddsState),
    Vita49(Vita49State),
}

/// What a window accumulator holds.
pub enum StatsModel {
    Plain,
    Sdds(SddsModel),
    Vita49(Vita49State),
}

impl View for StatsState {
    type V = StatsModel;

    open spec fn view(&self) -> StatsModel {
        match self {
            StatsState::Plain => StatsModel::Plain,
            StatsState::Sdds(s) => StatsModel::Sdds(s@),
            StatsState::Vita49(v) => StatsModel::Vita49(*v),
        }
    }
}

/// The fresh accumulator for a packet type.
pub open spec fn initial_model(t: PacketType) -> StatsModel {
    match t {
        PacketType::Sdds => StatsModel::Sdds(
            SddsModel { last_seq: None, skipped: 0, timestamp: Seq::empty(), parity_exempt: true },
        ),
        PacketType::Vita49 => StatsModel::Vita49(Vita49State { last_seq: None, skipped_in_period: 0 }),
        _ => StatsModel::Plain,
    }
}

pub open spec fn stats_step(m: StatsModel, p: Seq<u8>) -> StatsModel {
    match m {
        StatsModel::Plain => StatsModel::Plain,
        StatsModel::Sdds(s) => StatsModel::Sdds(sdds_step(s, p)),
        StatsModel::Vita49(v) => StatsModel::Vita49(vrlp_step(v, p)),
    }
}

/// The accumulator after the packets `ps`, in order.
pub open spec fn stats_fold(m: StatsModel, ps: Seq<Seq<u8>>) -> StatsModel
    decreases ps.len(),
{
    if ps.len() == 0 {
        m
    } else {
        stats_step(stats_fold(m, ps.drop_last()), ps.last())
    }
}

/// The protocol part of a report line.
pub open spec fn summary_suffix(m: StatsModel) -> Seq<char> {
    match m {
        StatsModel::Plain => Seq::empty(),
        StatsModel::Sdds(s) => "  skipped: "@ + digits(s.skipped as nat, 10) + if s.timestamp.len()
            == 0 {
            Seq::empty()
        } else {
            "  time: "@ + s.timestamp
        },
        StatsModel::Vita49(v) => "  skipped: "@ + digits(v.skipped_in_period as nat, 10),
    }
}

/// A whole report line, given the rate already rendered.
pub open spec fn report_text(count: u64, rate: Seq<char>, m: StatsModel) -> Seq<char> {
    "packets: "@ + digits(count as nat, 10) + "  rate: "@ + rate + " pkt/s"@ + summary_suffix(m)
}

impl StatsState {
    pub fn new(packet_type: PacketType) -> (r: StatsState)
        ensures
            r@ == initial_model(packet_type),
    {
        match packet_type {
            PacketType::Sdds => StatsState::Sdds(SddsState::new()),
            PacketType::Vita49 => StatsState::Vita49(Vita49State::new()),
            _ => StatsState::Plain,
        }
    }

    pub fn process_packet(&mut self, packet: &[u8])
        ensures
            final(self)@ == stats_step(old(self)@, packet@),
    {
        match self {
            StatsState::Plain => {},
            StatsState::Sdds(s) => s.process_packet(packet),
            StatsState::Vita49(v) => v.process_packet(packet),
        }
    }

    /// Feeds every packet of a batch in order; returns how many there were.
    pub fn process_batch(&mut self, batch: &Vec<Packet>) -> (r: usize)
        ensures
            r == batch@.len(),
            final(self)@ == stats_fold(old(self)@, payloads(batch@)),
    {
        let mut i: usize = 0;
        while i < batch.len()
            invariant
                i <= batch@.len(),
                self@ == stats_fold(old(self)@, payloads(batch@.take(i as int))),
            decreases batch@.len() - i,
        {
            self.process_packet(batch[i].bytes());
            assert(payloads(batch@.take(i + 1)).drop_last() =~= payloads(batch@.take(i as int)));
            i = i + 1;
        }
        assert(batch@.take(i as int) =~= batch@);
        i
    }

    /// The protocol part of the report line.
    pub fn summary(&self) -> (r: String)
        ensures
            r@ == summary_suffix(self@),
    {
        proof {
            reveal_strlit("  skipped: ");
            reveal_strlit("  time: ");
        }
        match self {
            StatsState::Plain => String::new(),
            StatsState::Sdds(s) => {
                let mut r = String::from_str("  skipped: ");
                push_digits(&mut r, s.skipped_in_period, 10);
                if s.latest_timestamp.unicode_len() > 0 {
                    r.append("  time: ");
                    r.append(s.latest_timestamp.as_str());
                }
                r
            },
            StatsState::Vita49(v) => {
                let mut r = String::from_str("  skipped: ");
                push_digits(&mut r, v.skipped_in_period, 10);
                r
            },
        }
    }

    /// The report line for a window of `count` packets at the rate `rate`.
    pub fn report_line(&self, count: u64, rate: &str) -> (r: String)
        ensures
            r@ == report_text(count, rate@, self@),
    {
        proof {
            reveal_strlit("packets: ");
            reveal_strlit("  rate: ");
            reveal_strlit(" pkt/s");
        }
        let mut r = String::from_str("packets: ");
        push_digits(&mut r, count, 10);
        r.append("  rate: ");
        r.append(rate);
        r.append(" pkt/s");
        let suffix = self.summary();
        r.append(suffix.as_str());
        r
    }
}

/// Folding two runs of packets one after the other is folding their
/// concatenation.
pub proof fn lemma_stats_fold_concat(m: StatsModel, a: Seq<Seq<u8>>, b: Seq<Seq<u8>>)
    ensures
        stats_fold(m, a + b) == stats_fold(stats_fold(m, a), b),
    decreases b.len(),
{
    if b.len() == 0 {
        assert(a + b =~= a);
    } else {
        assert((a + b).drop_last() =~= a + b.drop_last());
        assert((a + b).last() == b.last());
        lemma_stats_fold_concat(m, a, b.drop_last());
    }
}

/// Wall time between two report lines.
pub const STATISTICS_DELAY_MS: u64 = 2000;

/// One report window of the statistics stage: the packets counted since
/// the last report and the protocol accumulator.
pub struct StatsWindow {
    pub count: u64,
    pub state: StatsState,
    pub packet_type: PacketType,
}

impl StatsWindow {
    pub fn new(packet_type: PacketType) -> (r: StatsWindow)
        ensures
            r.count == 0,
            r.state@ == initial_model(packet_type),
            r.packet_type == packet_type,
    {
        StatsWindow { count: 0, state: StatsState::new(packet_type), packet_type }
    }

    /// One received batch: each packet counted and folded in, in order.
    pub fn observe(&mut self, batch: &Vec<Packet>)
        ensures
            final(self).count == sat_add(old(self).count, batch@.len()),
            final(self).state@ == stats_fold(old(self).state@, payloads(batch@)),
            final(self).packet_type == old(self).packet_type,
    {
        let n = self.state.process_batch(batch) as u64;
        self.count = if self.count > u64::MAX - n {
            u64::MAX
        } else {
            self.count + n
        };
    }

    /// The report tick: once `STATISTICS_DELAY_MS` have passed, the
    /// window's report line, given the rate already rendered, and a fresh
    /// window.
    pub fn tick(&mut self, elapsed_ms: u64, rate: &str) -> (r: Option<String>)
        ensures
            (r is Some) == (elapsed_ms >= STATISTICS_DELAY_MS),
            final(self).packet_type == old(self).packet_type,
            r is Some ==> r->Some_0@ == report_text(old(self).count, rate@, old(self).state@)
                && final(self).count == 0 && final(self).state@ == initial_model(
                old(self).packet_type,
            ),
            r is None ==> final(self).count == old(self).count && final(self).state@ == old(
                self,
            ).state@,
    {
        if elapsed_ms >= STATISTICS_DELAY_MS {
            let line = self.state.report_line(self.count, rate);
            self.count = 0;
            self.state = StatsState::new(self.packet_type);
            Some(line)
        } else {
            None
        }
    }

    /// Shutdown: every batch still queued is folded in once, in FIFO order.
    pub fn drain(&mut self, rest: &Vec<PacketBatch>)
        ensures
            final(self).state@ == stats_fold(old(self).state@, batch_payloads(rest@)),
            final(self).count == old(self).count,
            final(self).packet_type == old(self).packet_type,
    {
        let mut i: usize = 0;
        assert(batch_payloads(rest@.take(0)) =~= Seq::<Seq<u8>>::empty());
        while i < rest.len()
            invariant
                i <= rest@.len(),
                self.count == old(self).count,
                self.packet_type == old(self).packet_type,
                self.state@ == stats_fold(old(self).state@, batch_payloads(rest@.take(i as int))),
            decreases rest@.len() - i,
        {
            let batch: &Vec<Packet> = &rest[i];
            self.state.process_batch(batch);
            proof {
                let m = rest@.take(i as int).map_values(|b: PacketBatch| payloads(b@));
                assert(rest@.take(i + 1).map_values(|b: PacketBatch| payloads(b@)) =~= m.push(
                    payloads(rest@[i as int]@),
                ));
                m.lemma_flatten_push(payloads(rest@[i as int]@));
                lemma_stats_fold_concat(
                    old(self).state@,
                    batch_payloads(rest@.take(i as int)),
                    payloads(rest@[i as int]@),
                );
            }
            i = i + 1;
        }
        assert(rest@.take(i as int) =~= rest@);
    }
}

} // verus!
