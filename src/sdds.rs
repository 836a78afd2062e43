//! SDDS header fields. The payload starts with a two-byte format identifier,
//! a 16-bit frame sequence number and a 64-bit time tag with a 32-bit
//! extension, all big-endian.
use vstd::prelude::*;
use vstd::string::*;

use crate::bytes::{be16, be32, be64, read_be16, read_be32, read_be64};
use crate::text::{
    digits, field_line, padded_string, push_field_line, push_zero_padded, radix_string, zero_padded,
};

verus! {

pub open spec fn spec_frame_sequence_number(p: Seq<u8>) -> nat {
    if p.len() >= 4 { be16(p, 2) } else { 0 }
}

pub open spec fn spec_time_tag(p: Seq<u8>) -> nat {
    if p.len() >= 16 { be64(p, 8) } else { 0 }
}

pub open spec fn spec_time_tag_ext(p: Seq<u8>) -> nat {
    if p.len() >= 20 { be32(p, 16) } else { 0 }
}

/// Bytes 2..4; zero when the packet is shorter.
pub fn frame_sequence_number(packet: &[u8]) -> (r: u16)
    ensures
        r == spec_frame_sequence_number(packet@),
{
    if packet.len() >= 4 {
        read_be16(packet, 2)
    } else {
        0
    }
}

/// Bytes 8..16; zero when the packet is shorter.
pub fn time_tag(packet: &[u8]) -> (r: u64)
    ensures
        r == spec_time_tag(packet@),
{
    if packet.len() >= 16 {
        read_be64(packet, 8)
    } else {
        0
    }
}

/// Bytes 16..20; zero when the packet is shorter.
pub fn time_tag_ext(packet: &[u8]) -> (r: u32)
    ensures
        r == spec_time_tag_ext(packet@),
{
    if packet.len() >= 20 {
        read_be32(packet, 16)
    } else {
        0
    }
}

/// Time tag units per second: the tag counts quarter nanoseconds.
pub const TICKS_PER_SEC: u64 = 4_000_000_000;

/// `(days, hours, minutes, seconds, nanoseconds)` of a time tag, with a
/// one-based day index.
pub open spec fn spec_sddstime(t: nat) -> (nat, nat, nat, nat, nat) {
    let secs_total = t / 4_000_000_000;
    (
        1 + secs_total / 86_400,
        (secs_total / 3600) % 24,
        (secs_total / 60) % 60,
        secs_total % 60,
        (t % 4_000_000_000) / 4,
    )
}

pub fn sddstime(timetag: u64) -> (r: (u32, u32, u32, u32, u64))
    ensures
        (r.0 as nat, r.1 as nat, r.2 as nat, r.3 as nat, r.4 as nat) == spec_sddstime(
            timetag as nat,
        ),
{
    let mut tt = timetag;
    let nsecs = (tt % TICKS_PER_SEC) / 4;
    tt = tt / TICKS_PER_SEC;
    let ghost total = tt;
    let secs = (tt % 60) as u32;
    tt = tt / 60;
    let mins = (tt % 60) as u32;
    tt = tt / 60;
    let hours = (tt % 24) as u32;
    tt = tt / 24;
    assert(tt < 60000);
    let days = 1 + tt as u32;
    proof {
        assert(total / 60 / 60 == total / 3600) by (nonlinear_arith);
        assert(total / 60 / 60 / 24 == total / 86_400) by (nonlinear_arith);
    }
    (days, hours, mins, secs, nsecs)
}

/// `DDD:HH:MM:SS:NNNNNNNNN`, each field zero padded.
pub open spec fn timestamp_text(t: nat) -> Seq<char> {
    let f = spec_sddstime(t);
    zero_padded(f.0, 10, 3) + ":"@ + zero_padded(f.1, 10, 2) + ":"@ + zero_padded(f.2, 10, 2)
        + ":"@ + zero_padded(f.3, 10, 2) + ":"@ + zero_padded(f.4, 10, 9)
}

pub fn format_timestamp(timetag: u64) -> (r: String)
    ensures
        r@ == timestamp_text(timetag as nat),
{
    let (days, hours, mins, secs, nsecs) = sddstime(timetag);
    let mut s = String::new();
    push_zero_padded(&mut s, days as u64, 10, 3);
    s.append(":");
    push_zero_padded(&mut s, hours as u64, 10, 2);
    s.append(":");
    push_zero_padded(&mut s, mins as u64, 10, 2);
    s.append(":");
    push_zero_padded(&mut s, secs as u64, 10, 2);
    s.append(":");
    push_zero_padded(&mut s, nsecs, 10, 9);
    s
}

/// Bit `mask` of byte `at` of the format identifier; false when absent.
pub open spec fn flag(p: Seq<u8>, at: int, mask: u8) -> bool {
    p.len() > at && p[at] & mask != 0
}

/// Bits `mask` of byte `at` of the format identifier; zero when absent.
pub open spec fn field(p: Seq<u8>, at: int, mask: u8) -> u8 {
    if p.len() > at { p[at] & mask } else { 0 }
}

fn flag_bit(packet: &[u8], at: usize, mask: u8) -> (r: bool)
    ensures
        r == flag(packet@, at as int, mask),
{
    packet.len() > at && packet[at] & mask != 0
}

fn field_bits(packet: &[u8], at: usize, mask: u8) -> (r: u8)
    ensures
        r == field(packet@, at as int, mask),
{
    if packet.len() > at {
        packet[at] & mask
    } else {
        0
    }
}

/// Standard format flag.
pub fn sf(packet: &[u8]) -> (r: bool)
    ensures
        r == flag(packet@, 0, 0x80),
{
    flag_bit(packet, 0, 0x80)
}

/// Start-of-sequence flag.
pub fn sos(packet: &[u8]) -> (r: bool)
    ensures
        r == flag(packet@, 0, 0x40),
{
    flag_bit(packet, 0, 0x40)
}

/// Parity packet flag.
pub fn pp(packet: &[u8]) -> (r: bool)
    ensures
        r == flag(packet@, 0, 0x20),
{
    flag_bit(packet, 0, 0x20)
}

/// The OF flag: samples keep their source format.
pub fn of(packet: &[u8]) -> (r: bool)
    ensures
        r == flag(packet@, 0, 0x10),
{
    flag_bit(packet, 0, 0x10)
}

/// Spectral sense flag.
pub fn ss(packet: &[u8]) -> (r: bool)
    ensures
        r == flag(packet@, 0, 0x08),
{
    flag_bit(packet, 0, 0x08)
}

/// The three-bit data mode.
pub fn data_mode(packet: &[u8]) -> (r: u8)
    ensures
        r == field(packet@, 0, 0x07),
{
    field_bits(packet, 0, 0x07)
}

/// Complex samples flag.
pub fn cx(packet: &[u8]) -> (r: bool)
    ensures
        r == flag(packet@, 1, 0x80),
{
    flag_bit(packet, 1, 0x80)
}

/// Spectral-not-processed flag.
pub fn snp(packet: &[u8]) -> (r: bool)
    ensures
        r == flag(packet@, 1, 0x40),
{
    flag_bit(packet, 1, 0x40)
}

/// Vector-word flag.
pub fn vw(packet: &[u8]) -> (r: bool)
    ensures
        r == flag(packet@, 1, 0x20),
{
    flag_bit(packet, 1, 0x20)
}

/// The five-bit sample width.
pub fn bits_per_sample(packet: &[u8]) -> (r: u8)
    ensures
        r == field(packet@, 1, 0x1F),
{
    field_bits(packet, 1, 0x1F)
}

/// `1` or `0`.
pub open spec fn bit_text(b: bool) -> Seq<char> {
    if b { "1"@ } else { "0"@ }
}

/// A flag line of the SDDS listing.
pub open spec fn flag_line(label: Seq<char>, b: bool, vw: nat) -> Seq<char> {
    field_line("    "@, label, 22, bit_text(b), vw, bit_text(b))
}

/// The listing of an SDDS header.
pub open spec fn sdds_header_text(p: Seq<u8>) -> Seq<char> {
    let seq = spec_frame_sequence_number(p);
    let tt = spec_time_tag(p);
    let ext = spec_time_tag_ext(p);
    "SDDS Header:\n"@
        + field_line("  "@, "Frame Sequence (16)"@, 24, digits(seq, 10), 25, zero_padded(seq, 2, 16))
        + field_line("  "@, "Time Tag (64)"@, 24, timestamp_text(tt), 25, zero_padded(tt, 2, 64))
        + field_line("  "@, "Time Tag Ext (32)"@, 24, " "@, 25, zero_padded(ext, 2, 32))
        + flag_line("SF (1)"@, flag(p, 0, 0x80), 25)
        + flag_line("SoS(1)"@, flag(p, 0, 0x40), 26)
        + flag_line("PP (1)"@, flag(p, 0, 0x20), 27)
        + flag_line("OF (1)"@, flag(p, 0, 0x10), 28)
        + flag_line("SS (1)"@, flag(p, 0, 0x08), 29)
        + field_line("    "@, "Data Mode (3)"@, 22, digits(field(p, 0, 0x07) as nat, 10), 30, zero_padded(field(p, 0, 0x07) as nat, 2, 3))
        + flag_line("CX (1)"@, flag(p, 1, 0x80), 33)
        + flag_line("SNP (1)"@, flag(p, 1, 0x40), 34)
        + flag_line("VW (1)"@, flag(p, 1, 0x20), 35)
        + field_line("    "@, "Bits per Sample (5)"@, 22, digits(field(p, 1, 0x1F) as nat, 10), 36, zero_padded(field(p, 1, 0x1F) as nat, 2, 5))
}

fn bit_str(b: bool) -> (r: &'static str)
    ensures
        r@ == bit_text(b),
{
    proof {
        reveal_strlit("1");
        reveal_strlit("0");
    }
    if b {
        "1"
    } else {
        "0"
    }
}

fn push_flag_line(out: &mut String, label: &str, b: bool, vw: u64)
    ensures
        final(out)@ == old(out)@ + flag_line(label@, b, vw as nat),
{
    proof {
        reveal_strlit("    ");
    }
    push_field_line(out, "    ", label, 22, bit_str(b), vw, bit_str(b));
}

/// A view of an SDDS payload for display.
pub struct SddsHeader<'a> {
    packet: &'a [u8],
}

impl<'a> SddsHeader<'a> {
    pub closed spec fn payload(&self) -> Seq<u8> {
        self.packet@
    }

    pub fn new(packet: &'a [u8]) -> (r: Self)
        ensures
            r.payload() == packet@,
    {
        SddsHeader { packet }
    }

    /// The header as a multi-line listing, each field in decimal and binary.
    pub fn render(&self) -> (r: String)
        ensures
            r@ == sdds_header_text(self.payload()),
    {
        proof {
            reveal_strlit("SDDS Header:\n");
            reveal_strlit("  ");
            reveal_strlit("    ");
            reveal_strlit(" ");
            reveal_strlit("Frame Sequence (16)");
            reveal_strlit("Time Tag (64)");
            reveal_strlit("Time Tag Ext (32)");
            reveal_strlit("SF (1)");
            reveal_strlit("SoS(1)");
            reveal_strlit("PP (1)");
            reveal_strlit("OF (1)");
            reveal_strlit("SS (1)");
            reveal_strlit("Data Mode (3)");
            reveal_strlit("CX (1)");
            reveal_strlit("SNP (1)");
            reveal_strlit("VW (1)");
            reveal_strlit("Bits per Sample (5)");
        }
        let p = self.packet;
        let seq = frame_sequence_number(p) as u64;
        let tt = time_tag(p);
        let ext = time_tag_ext(p) as u64;
        let mut out = String::from_str("SDDS Header:\n");
        let v = radix_string(seq, 10);
        let b = padded_string(seq, 2, 16);
        push_field_line(&mut out, "  ", "Frame Sequence (16)", 24, v.as_str(), 25, b.as_str());
        let v = format_timestamp(tt);
        let b = padded_string(tt, 2, 64);
        push_field_line(&mut out, "  ", "Time Tag (64)", 24, v.as_str(), 25, b.as_str());
        let b = padded_string(ext, 2, 32);
        push_field_line(&mut out, "  ", "Time Tag Ext (32)", 24, " ", 25, b.as_str());
        push_flag_line(&mut out, "SF (1)", sf(p), 25);
        push_flag_line(&mut out, "SoS(1)", sos(p), 26);
        push_flag_line(&mut out, "PP (1)", pp(p), 27);
        push_flag_line(&mut out, "OF (1)", of(p), 28);
        push_flag_line(&mut out, "SS (1)", ss(p), 29);
        let mode = data_mode(p) as u64;
        let v = radix_string(mode, 10);
        let b = padded_string(mode, 2, 3);
        push_field_line(&mut out, "    ", "Data Mode (3)", 22, v.as_str(), 30, b.as_str());
        push_flag_line(&mut out, "CX (1)", cx(p), 33);
        push_flag_line(&mut out, "SNP (1)", snp(p), 34);
        push_flag_line(&mut out, "VW (1)", vw(p), 35);
        let bits = bits_per_sample(p) as u64;
        let v = radix_string(bits, 10);
        let b = padded_string(bits, 2, 5);
        push_field_line(&mut out, "    ", "Bits per Sample (5)", 22, v.as_str(), 36, b.as_str());
        out
    }
}

} // verus!
