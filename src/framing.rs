//! Framing of packets in files and standard streams.
//!
//! Binary mode: each packet is a little-endian `u32` length followed by that
//! many bytes. Text mode: one newline-terminated line per packet.
use vstd::prelude::*;
use vstd::string::*;

use crate::bytes::{le32, le32_bytes, le32_to_bytes, read_le32};
use crate::error::LibError;
use crate::packet::{Packet, PacketBatch};
use crate::text::{digits, push_digits};

verus! {

/// The largest payload a binary record may announce.
pub const MAX_PACKET_SIZE: usize = 65536;

/// Why a binary stream could not be read.
#[derive(Debug, Clone, Copy, PartialEq, Eq, Structural)]
pub enum FrameError {
    /// A record announced more than `MAX_PACKET_SIZE` bytes.
    TooLarge(u32),
    /// The stream ended inside a record's payload.
    Truncated,
}

/// The text of the error raised for an oversize record.
pub open spec fn too_large_message(length: nat) -> Seq<char> {
    "Packet too large: "@ + digits(length, 10) + " bytes"@
}

/// The library error each framing error becomes.
pub open spec fn frame_error_is(e: FrameError, l: LibError) -> bool {
    match e {
        FrameError::TooLarge(n) => l matches LibError::Critical(m) && m@ == too_large_message(
            n as nat,
        ),
        FrameError::Truncated => l matches LibError::UnexpectedEof,
    }
}

impl FrameError {
    pub fn to_lib_error(&self) -> (r: LibError)
        ensures
            frame_error_is(*self, r),
    {
        match self {
            FrameError::TooLarge(n) => {
                let mut m = String::from_str("Packet too large: ");
                push_digits(&mut m, *n as u64, 10);
                m.append(" bytes");
                proof {
                    reveal_strlit("Packet too large: ");
                    reveal_strlit(" bytes");
                }
                LibError::Critical(m)
            },
            FrameError::Truncated => LibError::UnexpectedEof,
        }
    }
}

/// Checks the length that a four-byte little-endian prefix announces.
pub fn binary_frame_length(prefix: &[u8; 4]) -> (r: Result<usize, FrameError>)
    ensures
        le32(prefix@, 0) <= MAX_PACKET_SIZE ==> r == Ok::<usize, FrameError>(
            le32(prefix@, 0) as usize,
        ),
        le32(prefix@, 0) > MAX_PACKET_SIZE ==> r == Err::<usize, FrameError>(
            FrameError::TooLarge(le32(prefix@, 0) as u32),
        ),
{
    let length = read_le32(prefix.as_slice(), 0);
    if length as usize > MAX_PACKET_SIZE {
        Err(FrameError::TooLarge(length))
    } else {
        Ok(length as usize)
    }
}

/// One binary record: the length prefix, then the payload.
pub open spec fn binary_record(p: Seq<u8>) -> Seq<u8> {
    le32_bytes(p.len()) + p
}

/// The binary encoding of a sequence of payloads.
pub open spec fn encode_binary_spec(ps: Seq<Seq<u8>>) -> Seq<u8> {
    ps.map_values(|p: Seq<u8>| binary_record(p)).flatten()
}

/// What reading a binary stream yields: records until fewer than four bytes
/// remain, failing on an oversize length or a payload cut short.
pub open spec fn decode_binary_spec(b: Seq<u8>) -> Result<Seq<Seq<u8>>, FrameError>
    decreases b.len(),
{
    if b.len() < 4 {
        Ok(Seq::empty())
    } else {
        let n = le32(b, 0) as int;
        if n > MAX_PACKET_SIZE {
            Err(FrameError::TooLarge(le32(b, 0) as u32))
        } else if b.len() < 4 + n {
            Err(FrameError::Truncated)
        } else {
            match decode_binary_spec(b.subrange(4 + n, b.len() as int)) {
                Ok(rest) => Ok(seq![b.subrange(4, 4 + n)] + rest),
                Err(e) => Err(e),
            }
        }
    }
}

/// The payloads of a list of packets.
pub open spec fn payloads(ps: Seq<Packet>) -> Seq<Seq<u8>> {
    ps.map_values(|p: Packet| p@)
}

/// The payloads of a list of batches, in order.
pub open spec fn batch_payloads(bs: Seq<PacketBatch>) -> Seq<Seq<u8>> {
    bs.map_values(|b: PacketBatch| payloads(b@)).flatten()
}

fn push_bytes(out: &mut Vec<u8>, b: &[u8])
    ensures
        final(out)@ == old(out)@ + b@,
{
    let mut i: usize = 0;
    while i < b.len()
        invariant
            i <= b@.len(),
            out@ == old(out)@ + b@.subrange(0, i as int),
        decreases b@.len() - i,
    {
        out.push(b[i]);
        i = i + 1;
        assert(out@ =~= old(out)@ + b@.subrange(0, i as int));
    }
    assert(b@.subrange(0, i as int) =~= b@);
}

/// Appends one packet as a binary record.
pub fn encode_binary_record(out: &mut Vec<u8>, packet: &Packet)
    requires
        packet@.len() <= u32::MAX,
    ensures
        final(out)@ == old(out)@ + binary_record(packet@),
{
    let bytes = packet.bytes();
    let prefix = le32_to_bytes(bytes.len() as u32);
    push_bytes(out, prefix.as_slice());
    push_bytes(out, bytes);
    assert(final(out)@ =~= old(out)@ + binary_record(packet@));
}

/// The binary encoding of a list of packets.
pub fn encode_binary(packets: &Vec<Packet>) -> (r: Vec<u8>)
    requires
        forall|i: int| 0 <= i < packets@.len() ==> (#[trigger] packets@[i])@.len() <= u32::MAX,
    ensures
        r@ == encode_binary_spec(payloads(packets@)),
{
    let mut out: Vec<u8> = Vec::new();
    let mut i: usize = 0;
    while i < packets.len()
        invariant
            i <= packets@.len(),
            forall|k: int| 0 <= k < packets@.len() ==> (#[trigger] packets@[k])@.len() <= u32::MAX,
            out@ == encode_binary_spec(payloads(packets@.take(i as int))),
        decreases packets@.len() - i,
    {
        encode_binary_record(&mut out, &packets[i]);
        proof {
            let mapped = payloads(packets@.take(i as int)).map_values(|p: Seq<u8>| binary_record(p));
            assert(payloads(packets@.take(i + 1)).map_values(|p: Seq<u8>| binary_record(p))
                =~= mapped.push(binary_record(packets@[i as int]@)));
            mapped.lemma_flatten_push(binary_record(packets@[i as int]@));
        }
        i = i + 1;
    }
    assert(packets@.take(i as int) =~= packets@);
    out
}

/// `a` put in front of the payloads of a successful read; errors pass.
pub open spec fn prepend(
    a: Seq<Seq<u8>>,
    r: Result<Seq<Seq<u8>>, FrameError>,
) -> Result<Seq<Seq<u8>>, FrameError> {
    match r {
        Ok(rest) => Ok(a + rest),
        Err(e) => Err(e),
    }
}

/// Reads every binary record of `bytes`.
pub fn decode_binary(bytes: &[u8]) -> (r: Result<Vec<Packet>, FrameError>)
    ensures
        match r {
            Ok(v) => decode_binary_spec(bytes@) == Ok::<Seq<Seq<u8>>, FrameError>(payloads(v@)),
            Err(e) => decode_binary_spec(bytes@) == Err::<Seq<Seq<u8>>, FrameError>(e),
        },
{
    let mut out: Vec<Packet> = Vec::new();
    let mut pos: usize = 0;
    let len = bytes.len();
    proof {
        assert(bytes@.subrange(0, len as int) =~= bytes@);
        assert(payloads(out@) =~= Seq::<Seq<u8>>::empty());
        match decode_binary_spec(bytes@) {
            Ok(x) => {
                assert(Seq::<Seq<u8>>::empty() + x =~= x);
            },
            Err(e) => {},
        }
    }
    while len - pos >= 4
        invariant
            pos <= len,
            len == bytes@.len(),
            decode_binary_spec(bytes@) == prepend(
                payloads(out@),
                decode_binary_spec(bytes@.subrange(pos as int, len as int)),
            ),
        decreases len - pos,
    {
        let ghost t = bytes@.subrange(pos as int, len as int);
        let prefix: [u8; 4] = [bytes[pos], bytes[pos + 1], bytes[pos + 2], bytes[pos + 3]];
        assert(le32(prefix@, 0) == le32(t, 0));
        let n = match binary_frame_length(&prefix) {
            Ok(n) => n,
            Err(e) => {
                return Err(e);
            },
        };
        if len - pos - 4 < n {
            return Err(FrameError::Truncated);
        }
        let payload = vstd::slice::slice_to_vec(
            vstd::slice::slice_subrange(bytes, pos + 4, pos + 4 + n),
        );
        let packet = Packet::new(payload);
        proof {
            let rest = bytes@.subrange((pos + 4 + n) as int, len as int);
            assert(t.subrange(4 + n, t.len() as int) =~= rest);
            assert(t.subrange(4, 4 + n as int) =~= packet@);
            let a = payloads(out@);
            assert(payloads(out@.push(packet)) =~= a.push(packet@));
            match decode_binary_spec(rest) {
                Ok(x) => {
                    assert(a + (seq![packet@] + x) =~= a.push(packet@) + x);
                },
                Err(e) => {},
            }
        }
        out.push(packet);
        pos = pos + 4 + n;
    }
    assert(payloads(out@) + Seq::<Seq<u8>>::empty() =~= payloads(out@));
    Ok(out)
}

proof fn lemma_le32_bytes(n: nat)
    requires
        n <= u32::MAX,
    ensures
        le32(le32_bytes(n), 0) == n,
        le32_bytes(n).len() == 4,
{
}

/// Reading back the binary encoding of payloads of at most
/// `MAX_PACKET_SIZE` bytes yields the same payloads, byte for byte.
pub proof fn lemma_binary_round_trip(ps: Seq<Seq<u8>>)
    requires
        forall|i: int| 0 <= i < ps.len() ==> (#[trigger] ps[i]).len() <= MAX_PACKET_SIZE,
    ensures
        decode_binary_spec(encode_binary_spec(ps)) == Ok::<Seq<Seq<u8>>, FrameError>(ps),
    decreases ps.len(),
{
    let e = encode_binary_spec(ps);
    if ps.len() == 0 {
        assert(e =~= Seq::<u8>::empty());
        assert(ps =~= Seq::<Seq<u8>>::empty());
    } else {
        let rest = ps.drop_first();
        assert forall|i: int| 0 <= i < rest.len() implies (#[trigger] rest[i]).len()
            <= MAX_PACKET_SIZE by {
            assert(rest[i] == ps[i + 1]);
        }
        lemma_binary_round_trip(rest);
        let mapped = ps.map_values(|p: Seq<u8>| binary_record(p));
        assert(mapped.drop_first() =~= rest.map_values(|p: Seq<u8>| binary_record(p)));
        let first = ps[0];
        let n = first.len();
        lemma_le32_bytes(n);
        assert(e == binary_record(first) + encode_binary_spec(rest));
        assert(e.subrange(0, 4) =~= le32_bytes(n));
        assert(le32(e, 0) == le32(le32_bytes(n), 0));
        assert(e.subrange(4 + n as int, e.len() as int) =~= encode_binary_spec(rest));
        assert(e.subrange(4, 4 + n as int) =~= first);
        assert(seq![first] + rest =~= ps);
    }
}

/// One text record: the payload, with a newline appended unless it already
/// ends in one.
pub open spec fn text_record(p: Seq<u8>) -> Seq<u8> {
    if p.len() > 0 && p.last() == 10 { p } else { p.push(10) }
}

/// The text encoding of a sequence of payloads.
pub open spec fn encode_text_spec(ps: Seq<Seq<u8>>) -> Seq<u8> {
    ps.map_values(|p: Seq<u8>| text_record(p)).flatten()
}

/// The length of the first line of `b`, its newline included.
pub open spec fn line_len(b: Seq<u8>) -> nat
    decreases b.len(),
{
    if b.len() == 0 {
        0
    } else if b[0] == 10 {
        1
    } else {
        1 + line_len(b.drop_first())
    }
}

proof fn lemma_line_len_bounds(b: Seq<u8>)
    ensures
        line_len(b) <= b.len(),
        b.len() > 0 ==> line_len(b) >= 1,
    decreases b.len(),
{
    if b.len() > 0 && b[0] != 10 {
        lemma_line_len_bounds(b.drop_first());
    }
}

/// The lines of `b`, each with its newline; a last line without one is kept.
pub open spec fn decode_text_spec(b: Seq<u8>) -> Seq<Seq<u8>>
    decreases b.len() via decode_text_decreases
{
    if b.len() == 0 {
        Seq::empty()
    } else {
        let k = line_len(b) as int;
        seq![b.subrange(0, k)] + decode_text_spec(b.subrange(k, b.len() as int))
    }
}

#[via_fn]
proof fn decode_text_decreases(b: Seq<u8>) {
    lemma_line_len_bounds(b);
}

/// The first line ends at the first newline at or after `j`, when nothing
/// before `j` is a newline.
proof fn lemma_line_len(b: Seq<u8>, j: int)
    requires
        0 <= j <= b.len(),
        forall|i: int| 0 <= i < j ==> b[i] != 10,
        j == b.len() || b[j] == 10,
    ensures
        line_len(b) == if j == b.len() { j } else { j + 1 },
    decreases j,
{
    if j > 0 {
        let t = b.drop_first();
        assert forall|i: int| 0 <= i < j - 1 implies t[i] != 10 by {
            assert(t[i] == b[i + 1]);
        }
        lemma_line_len(t, j - 1);
    }
}

/// Appends one packet as a text record.
pub fn encode_text_record(out: &mut Vec<u8>, packet: &Packet)
    ensures
        final(out)@ == old(out)@ + text_record(packet@),
{
    let bytes = packet.bytes();
    push_bytes(out, bytes);
    let n = bytes.len();
    if !(n > 0 && bytes[n - 1] == 10) {
        out.push(10);
    }
    assert(final(out)@ =~= old(out)@ + text_record(packet@));
}

/// The text encoding of a list of packets.
pub fn encode_text(packets: &Vec<Packet>) -> (r: Vec<u8>)
    ensures
        r@ == encode_text_spec(payloads(packets@)),
{
    let mut out: Vec<u8> = Vec::new();
    let mut i: usize = 0;
    while i < packets.len()
        invariant
            i <= packets@.len(),
            out@ == encode_text_spec(payloads(packets@.take(i as int))),
        decreases packets@.len() - i,
    {
        encode_text_record(&mut out, &packets[i]);
        proof {
            let mapped = payloads(packets@.take(i as int)).map_values(|p: Seq<u8>| text_record(p));
            assert(payloads(packets@.take(i + 1)).map_values(|p: Seq<u8>| text_record(p))
                =~= mapped.push(text_record(packets@[i as int]@)));
            mapped.lemma_flatten_push(text_record(packets@[i as int]@));
        }
        i = i + 1;
    }
    assert(packets@.take(i as int) =~= packets@);
    out
}

/// Where the line starting at `pos` ends: just past its newline, or at the
/// end of `bytes`.
pub fn text_line_end(bytes: &[u8], pos: usize) -> (r: usize)
    requires
        pos <= bytes@.len(),
    ensures
        r == pos + line_len(bytes@.subrange(pos as int, bytes@.len() as int)),
        pos <= r <= bytes@.len(),
{
    let mut j = pos;
    while j < bytes.len() && bytes[j] != 10
        invariant
            pos <= j <= bytes@.len(),
            forall|i: int| pos <= i < j ==> bytes@[i] != 10,
        decreases bytes@.len() - j,
    {
        j = j + 1;
    }
    let ghost t = bytes@.subrange(pos as int, bytes@.len() as int);
    proof {
        lemma_line_len(t, j - pos);
    }
    if j < bytes.len() {
        j + 1
    } else {
        j
    }
}

/// Splits `bytes` into lines, each keeping its newline.
pub fn decode_text(bytes: &[u8]) -> (r: Vec<Packet>)
    ensures
        payloads(r@) == decode_text_spec(bytes@),
{
    let mut out: Vec<Packet> = Vec::new();
    let mut pos: usize = 0;
    let len = bytes.len();
    assert(bytes@.subrange(0, len as int) =~= bytes@);
    assert(payloads(out@) + decode_text_spec(bytes@) =~= decode_text_spec(bytes@));
    while pos < len
        invariant
            pos <= len,
            len == bytes@.len(),
            decode_text_spec(bytes@) == payloads(out@) + decode_text_spec(
                bytes@.subrange(pos as int, len as int),
            ),
        decreases len - pos,
    {
        let ghost t = bytes@.subrange(pos as int, len as int);
        let end = text_line_end(bytes, pos);
        let line = vstd::slice::slice_to_vec(vstd::slice::slice_subrange(bytes, pos, end));
        let packet = Packet::new(line);
        proof {
            lemma_line_len_bounds(t);
            let k = line_len(t) as int;
            assert(t.subrange(0, k) =~= packet@);
            assert(t.subrange(k, t.len() as int) =~= bytes@.subrange(end as int, len as int));
            assert(payloads(out@.push(packet)) =~= payloads(out@).push(packet@));
            assert(payloads(out@) + (seq![packet@] + decode_text_spec(
                bytes@.subrange(end as int, len as int),
            )) =~= payloads(out@).push(packet@) + decode_text_spec(
                bytes@.subrange(end as int, len as int),
            ));
        }
        out.push(packet);
        pos = end;
    }
    assert(payloads(out@) + decode_text_spec(bytes@.subrange(pos as int, len as int))
        =~= payloads(out@));
    out
}

/// A payload whose only newline, if any, is its last byte.
pub open spec fn single_line(p: Seq<u8>) -> bool {
    forall|i: int| 0 <= i < p.len() - 1 ==> p[i] != 10
}

/// Reading back the text encoding of single-line payloads yields each
/// payload with a newline appended where it lacked one.
pub proof fn lemma_text_round_trip(ps: Seq<Seq<u8>>)
    requires
        forall|i: int| 0 <= i < ps.len() ==> single_line(#[trigger] ps[i]),
    ensures
        decode_text_spec(encode_text_spec(ps)) == ps.map_values(|p: Seq<u8>| text_record(p)),
    decreases ps.len(),
{
    let e = encode_text_spec(ps);
    let mapped = ps.map_values(|p: Seq<u8>| text_record(p));
    if ps.len() == 0 {
        assert(e =~= Seq::<u8>::empty());
        assert(mapped =~= Seq::<Seq<u8>>::empty());
    } else {
        let rest = ps.drop_first();
        assert forall|i: int| 0 <= i < rest.len() implies single_line(#[trigger] rest[i]) by {
            assert(rest[i] == ps[i + 1]);
        }
        lemma_text_round_trip(rest);
        assert(mapped.drop_first() =~= rest.map_values(|p: Seq<u8>| text_record(p)));
        let r0 = text_record(ps[0]);
        assert(single_line(ps[0]));
        assert(e == r0 + encode_text_spec(rest));
        lemma_line_len(e, r0.len() - 1);
        assert(e.subrange(0, r0.len() as int) =~= r0);
        assert(e.subrange(r0.len() as int, e.len() as int) =~= encode_text_spec(rest));
        assert(seq![r0] + rest.map_values(|p: Seq<u8>| text_record(p)) =~= mapped);
    }
}

} // verus!
