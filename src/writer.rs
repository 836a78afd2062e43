//! Decisions of the writer stage: choosing the sink and gathering packets
//! for one scatter/gather send.
use vstd::prelude::*;

use crate::config::is_dash;
use crate::framing::{batch_payloads, payloads};
use crate::packet::{Packet, PacketBatch};

verus! {

/// Packets handed to one scatter/gather send.
pub const SEND_BATCH_SIZE: usize = 32;

pub open spec fn min(a: int, b: int) -> int {
    if a <= b { a } else { b }
}

/// Copies out the first `limit` packets of the concatenated batches.
pub fn gather_packets(batches: &Vec<PacketBatch>, limit: usize) -> (r: Vec<Packet>)
    ensures
        payloads(r@) == batch_payloads(batches@).take(
            min(limit as int, batch_payloads(batches@).len() as int),
        ),
{
    let ghost full = batch_payloads(batches@);
    let ghost mapped = batches@.map_values(|b: PacketBatch| payloads(b@));
    let mut out: Vec<Packet> = Vec::new();
    let mut i: usize = 0;
    while i < batches.len() && out.len() < limit
        invariant
            i <= batches@.len(),
            full == batch_payloads(batches@),
            mapped == batches@.map_values(|b: PacketBatch| payloads(b@)),
            payloads(out@) == batch_payloads(batches@.take(i as int)),
        decreases batches@.len() - i,
    {
        let batch: &Vec<Packet> = &batches[i];
        let ghost before = payloads(out@);
        let mut j: usize = 0;
        while j < batch.len()
            invariant
                j <= batch@.len(),
                payloads(out@) == before + payloads(batch@.take(j as int)),
            decreases batch@.len() - j,
        {
            let copy = Packet::new(vstd::slice::slice_to_vec(batch[j].bytes()));
            let ghost prev = out@;
            out.push(copy);
            assert(payloads(out@) =~= payloads(prev).push(copy@));
            assert(payloads(batch@.take(j + 1)) =~= payloads(batch@.take(j as int)).push(
                batch@[j as int]@,
            ));
            j = j + 1;
        }
        proof {
            assert(batch@.take(j as int) =~= batch@);
            let m = batches@.take(i as int).map_values(|b: PacketBatch| payloads(b@));
            assert(batches@.take(i + 1).map_values(|b: PacketBatch| payloads(b@)) =~= m.push(
                payloads(batches@[i as int]@),
            ));
            m.lemma_flatten_push(payloads(batches@[i as int]@));
        }
        i = i + 1;
    }
    proof {
        let x = batches@.take(i as int).map_values(|b: PacketBatch| payloads(b@));
        let y = batches@.skip(i as int).map_values(|b: PacketBatch| payloads(b@));
        assert(x + y =~= mapped);
        vstd::seq_lib::lemma_flatten_concat(x, y);
        if i == batches.len() {
            assert(batches@.take(i as int) =~= batches@);
        }
    }
    out.truncate(limit);
    assert(payloads(out@) =~= full.take(min(limit as int, full.len() as int)));
    out
}

/// Where the writer sends packets.
#[derive(Debug, Clone, Copy, PartialEq, Eq, Structural)]
pub enum WriterSink {
    Stdout,
    File,
    /// Retransmit to the multicast group.
    Network,
    /// Drain and drop.
    Devnull,
}

pub open spec fn sink_spec(output: Option<Seq<char>>, to_network: bool) -> WriterSink {
    match output {
        Some(o) => if o == "-"@ { WriterSink::Stdout } else { WriterSink::File },
        None => if to_network { WriterSink::Network } else { WriterSink::Devnull },
    }
}

/// `-` is standard output, another name a file; with no output the writer
/// retransmits when there is an input and discards otherwise.
pub fn select_sink(output: &Option<String>, to_network: bool) -> (r: WriterSink)
    ensures
        r == sink_spec(
            match output {
                Some(o) => Some(o@),
                None => None,
            },
            to_network,
        ),
{
    match output {
        Some(o) => if is_dash(o.as_str()) {
            WriterSink::Stdout
        } else {
            WriterSink::File
        },
        None => if to_network {
            WriterSink::Network
        } else {
            WriterSink::Devnull
        },
    }
}

} // verus!
