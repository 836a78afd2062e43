//! The VITA 49 link-layer (VRLP) header: the magic `VRLP`, then a 32-bit
//! big-endian word holding a 12-bit frame sequence and a 20-bit frame size.
use vstd::prelude::*;

use vstd::string::*;

use crate::bytes::{be32, read_be32};
use crate::text::{digits, field_line, pad_right, padded_string, push_field_line, push_str_left, radix_string, zero_padded};

verus! {

pub const HEADER_SIZE: usize = 8;

pub struct Vita49Header {
    pub frame_sequence_number: u16,
    pub frame_size: u32,
}

/// The ASCII bytes `V`, `R`, `L`, `P`.
pub open spec fn vrlp_magic() -> Seq<u8> {
    seq![0x56u8, 0x52u8, 0x4Cu8, 0x50u8]
}

/// A packet carries a VRLP header when it is at least eight bytes long and
/// starts with the magic.
pub open spec fn has_vrlp_header(p: Seq<u8>) -> bool {
    p.len() >= 8 && p.subrange(0, 4) == vrlp_magic()
}

/// `(frame_sequence_number, frame_size)` of a packet; zeros when it carries
/// no VRLP header.
pub open spec fn spec_parse_header(p: Seq<u8>) -> (nat, nat) {
    if has_vrlp_header(p) {
        (be32(p, 4) / 0x10_0000, be32(p, 4) % 0x10_0000)
    } else {
        (0, 0)
    }
}

pub fn parse_header(packet: &[u8]) -> (r: Vita49Header)
    ensures
        (r.frame_sequence_number as nat, r.frame_size as nat) == spec_parse_header(packet@),
        r.frame_sequence_number < 0x1000,
        !has_vrlp_header(packet@) ==> r.frame_sequence_number == 0 && r.frame_size == 0,
{
    if packet.len() < HEADER_SIZE {
        return Vita49Header { frame_sequence_number: 0, frame_size: 0 };
    }
    if !(packet[0] == 0x56 && packet[1] == 0x52 && packet[2] == 0x4C && packet[3] == 0x50) {
        assert(packet@.subrange(0, 4) != vrlp_magic()) by {
            if packet@.subrange(0, 4) == vrlp_magic() {
                assert(packet@.subrange(0, 4)[0] == packet@[0]);
                assert(packet@.subrange(0, 4)[1] == packet@[1]);
                assert(packet@.subrange(0, 4)[2] == packet@[2]);
                assert(packet@.subrange(0, 4)[3] == packet@[3]);
            }
        }
        return Vita49Header { frame_sequence_number: 0, frame_size: 0 };
    }
    assert(packet@.subrange(0, 4) =~= vrlp_magic());
    let word = read_be32(packet, 4);
    Vita49Header { frame_sequence_number: (word / 0x10_0000) as u16, frame_size: word % 0x10_0000 }
}

/// The listing of a VRLP header.
pub open spec fn vita49_header_text(seq: nat, size: nat) -> Seq<char> {
    "VITA49 Header:\n"@ + "  "@ + pad_right("Identifier"@, 24) + ":  VRLP\n"@ + field_line(
        "  "@,
        "Frame Sequence (12)"@,
        24,
        digits(seq, 10),
        25,
        zero_padded(seq, 2, 12),
    ) + field_line("  "@, "Frame Size (20)"@, 24, digits(size, 10), 25, zero_padded(size, 2, 20))
}

impl Vita49Header {
    /// The header as a multi-line listing, each value in decimal and binary.
    pub fn render(&self) -> (r: String)
        ensures
            r@ == vita49_header_text(self.frame_sequence_number as nat, self.frame_size as nat),
    {
        proof {
            reveal_strlit("VITA49 Header:\n");
            reveal_strlit("  ");
            reveal_strlit("Identifier");
            reveal_strlit(":  VRLP\n");
            reveal_strlit("Frame Sequence (12)");
            reveal_strlit("Frame Size (20)");
        }
        let seq = self.frame_sequence_number as u64;
        let size = self.frame_size as u64;
        let mut out = String::from_str("VITA49 Header:\n");
        out.append("  ");
        push_str_left(&mut out, "Identifier", 24);
        out.append(":  VRLP\n");
        let v = radix_string(seq, 10);
        let b = padded_string(seq, 2, 12);
        push_field_line(&mut out, "  ", "Frame Sequence (12)", 24, v.as_str(), 25, b.as_str());
        let v = radix_string(size, 10);
        let b = padded_string(size, 2, 20);
        push_field_line(&mut out, "  ", "Frame Size (20)", 24, v.as_str(), 25, b.as_str());
        out
    }
}

} // verus!
