//! Decisions of the reader stage: the receive slab, the max-count limit and
//! publication of batches under the drop-on-full policy.
use vstd::prelude::*;
use vstd::string::*;

use crossbeam_channel::Sender;

use crate::config::is_dash;
use crate::error::LibError;
use crate::framing::{payloads, MAX_PACKET_SIZE};
use crate::packet::{Packet, PacketBatch};
use crate::shared::SharedState;

verus! {

#[verifier::external_type_specification]
#[verifier::external_body]
#[verifier::reject_recursive_types(T)]
pub struct ExSender<T>(Sender<T>);

/// Datagrams a single receive call may return.
pub const RECVMMSG_BUFFER_COUNT: usize = 1000;

/// How a non-blocking send ended.
#[derive(Debug, Clone, Copy, PartialEq, Eq, Structural)]
pub enum SendStatus {
    Sent,
    /// The channel was full; the batch was dropped.
    Full,
    /// Every receiver is gone.
    Disconnected,
}

/// Relies on `crossbeam_channel::Sender::try_send`, which queues the message
/// or reports at once that the channel is full or disconnected. Which of the
/// three happens depends on the other threads, so nothing is promised.
#[verifier::external_body]
fn try_send(tx: &Sender<PacketBatch>, batch: &PacketBatch) -> (r: SendStatus) {
    match tx.try_send(std::sync::Arc::clone(batch)) {
        Ok(()) => SendStatus::Sent,
        Err(crossbeam_channel::TrySendError::Full(_)) => SendStatus::Full,
        Err(crossbeam_channel::TrySendError::Disconnected(_)) => SendStatus::Disconnected,
    }
}

/// What the reader makes of a send: `Ok(true)` when the batch was dropped.
pub open spec fn send_result_is(status: SendStatus, r: Result<bool, LibError>) -> bool {
    match status {
        SendStatus::Sent => r matches Ok(false),
        SendStatus::Full => r matches Ok(true),
        SendStatus::Disconnected => r matches Err(LibError::Critical(m)) && m@
            == "channel disconnected"@,
    }
}

/// The drop-on-full policy: a full channel drops the batch and goes on, a
/// disconnected one is fatal.
pub fn send_result(status: SendStatus) -> (r: Result<bool, LibError>)
    ensures
        send_result_is(status, r),
{
    match status {
        SendStatus::Sent => Ok(false),
        SendStatus::Full => Ok(true),
        SendStatus::Disconnected => {
            proof {
                reveal_strlit("channel disconnected");
            }
            Err(LibError::Critical(String::from_str("channel disconnected")))
        },
    }
}

/// Offers a batch to a channel without blocking; `Ok(true)` when it was
/// dropped because the channel was full.
pub fn write_batch_to_channel(batch: &PacketBatch, tx: &Sender<PacketBatch>) -> (r: Result<
    bool,
    LibError,
>)
    ensures
        exists|s: SendStatus| send_result_is(s, r),
{
    let status = try_send(tx, batch);
    send_result(status)
}

/// The max-count limit: a nonzero `max_count` closes once `total` reaches it.
pub open spec fn gate_closed(max_count: nat, total: nat) -> bool {
    max_count > 0 && total >= max_count
}

pub fn count_reached(max_count: u64, total: u64) -> (r: bool)
    ensures
        r == gate_closed(max_count as nat, total as nat),
{
    max_count > 0 && total >= max_count
}

/// How many of `received` packets may still go out when `already` were sent
/// and a nonzero `max_count` bounds the run.
pub open spec fn clamp_spec(received: nat, max_count: nat, already: nat) -> nat {
    if max_count > 0 && already + received > max_count {
        if already >= max_count { 0 } else { (max_count - already) as nat }
    } else {
        received
    }
}

pub fn clamp_send_count(count_received: usize, max_count: u64, already_sent: u64) -> (r: usize)
    ensures
        r == clamp_spec(count_received as nat, max_count as nat, already_sent as nat),
        r <= count_received,
{
    if max_count > 0 {
        let remaining: u64 = if already_sent >= max_count {
            0
        } else {
            max_count - already_sent
        };
        if count_received as u64 > remaining {
            return remaining as usize;
        }
    }
    count_received
}

/// `count` buffers of `size` bytes, each with its full length visible.
pub fn new_slab(count: usize, size: usize) -> (r: Vec<Packet>)
    ensures
        r@.len() == count,
        forall|i: int| 0 <= i < count ==> (#[trigger] r@[i]).capacity() == size && r@[i].length() == size,
{
    let mut slab: Vec<Packet> = Vec::new();
    let mut i: usize = 0;
    while i < count
        invariant
            i <= count,
            slab@.len() == i,
            forall|k: int| 0 <= k < i ==> (#[trigger] slab@[k]).capacity() == size && slab@[k].length() == size,
        decreases count - i,
    {
        slab.push(Packet::with_capacity(size));
        i = i + 1;
    }
    slab
}

/// Makes every buffer of the slab fully visible again before a receive.
pub fn reset_slab(slab: &mut Vec<Packet>, size: usize)
    ensures
        final(slab)@.len() == old(slab)@.len(),
        forall|i: int| 0 <= i < old(slab)@.len() ==> (#[trigger] final(slab)@[i]).buffer() == old(slab)@[i].buffer()
            && final(slab)@[i].length() == size,
{
    let mut i: usize = 0;
    while i < slab.len()
        invariant
            i <= slab@.len(),
            slab@.len() == old(slab)@.len(),
            forall|k: int| 0 <= k < slab@.len() ==> (#[trigger] slab@[k]).buffer() == old(slab)@[k].buffer(),
            forall|k: int| 0 <= k < i ==> (#[trigger] slab@[k]).length() == size,
        decreases slab@.len() - i,
    {
        slab[i].set_length(size);
        i = i + 1;
    }
}

/// The number of leading entries that received bytes.
pub fn received_count(byte_counts: &[usize]) -> (r: usize)
    ensures
        r <= byte_counts@.len(),
        forall|i: int| 0 <= i < r ==> byte_counts@[i] > 0,
        r < byte_counts@.len() ==> byte_counts@[r as int] == 0,
{
    let mut i: usize = 0;
    while i < byte_counts.len() && byte_counts[i] > 0
        invariant
            i <= byte_counts@.len(),
            forall|k: int| 0 <= k < i ==> byte_counts@[k] > 0,
        decreases byte_counts@.len() - i,
    {
        i = i + 1;
    }
    i
}

/// Cuts the first `count_received` buffers to what was received, and copies
/// the first `send_count` into a fresh batch, so the slab can be reused.
pub fn take_received(
    slab: &mut Vec<Packet>,
    byte_counts: &[usize],
    count_received: usize,
    send_count: usize,
) -> (r: Vec<Packet>)
    requires
        count_received <= byte_counts@.len(),
        count_received <= old(slab)@.len(),
        send_count <= count_received,
    ensures
        final(slab)@.len() == old(slab)@.len(),
        forall|i: int| 0 <= i < old(slab)@.len() ==> (#[trigger] final(slab)@[i]).buffer() == old(slab)@[i].buffer(),
        forall|i: int| 0 <= i < count_received ==> (#[trigger] final(slab)@[i]).length() == byte_counts@[i],
        forall|i: int| count_received <= i < old(slab)@.len() ==> (#[trigger] final(slab)@[i]) == old(slab)@[i],
        payloads(r@) == payloads(final(slab)@.take(send_count as int)),
{
    let mut i: usize = 0;
    while i < count_received
        invariant
            i <= count_received,
            count_received <= byte_counts@.len(),
            count_received <= old(slab)@.len(),
            slab@.len() == old(slab)@.len(),
            forall|k: int| 0 <= k < slab@.len() ==> (#[trigger] slab@[k]).buffer() == old(slab)@[k].buffer(),
            forall|k: int| 0 <= k < i ==> (#[trigger] slab@[k]).length() == byte_counts@[k],
            forall|k: int| i <= k < slab@.len() ==> (#[trigger] slab@[k]) == old(slab)@[k],
        decreases count_received - i,
    {
        slab[i].set_length(byte_counts[i]);
        i = i + 1;
    }
    let mut batch: Vec<Packet> = Vec::new();
    let mut j: usize = 0;
    while j < send_count
        invariant
            j <= send_count,
            send_count <= slab@.len(),
            payloads(batch@) == payloads(slab@.take(j as int)),
        decreases send_count - j,
    {
        let copy = Packet::new(vstd::slice::slice_to_vec(slab[j].bytes()));
        let ghost before = batch@;
        batch.push(copy);
        assert(payloads(batch@) =~= payloads(before).push(copy@));
        assert(payloads(slab@.take(j + 1)) =~= payloads(slab@.take(j as int)).push(slab@[j as int]@));
        j = j + 1;
    }
    batch
}

/// What publishing one batch did.
pub struct Published {
    /// The data channel was full and dropped the batch.
    pub data_dropped: bool,
    /// The statistics channel was full and dropped the batch.
    pub stats_dropped: bool,
    /// The packet counter after this batch was counted.
    pub total: u64,
    /// The max-count limit was reached: the exit flag is raised and the reader
    /// stops.
    pub stop: bool,
}

/// Publishes `packets` as one immutable batch to the data channel and, if
/// there is one, to the statistics channel, counts them, and applies the
/// max-count limit. Fails only when a channel is disconnected.
pub fn publish_batch(
    packets: Vec<Packet>,
    data_tx: &Sender<PacketBatch>,
    stats_tx: &Option<Sender<PacketBatch>>,
    shared_state: &SharedState,
    max_count: u64,
) -> (r: Result<Published, LibError>)
    ensures
        match r {
            Ok(p) => p.stop == gate_closed(max_count as nat, p.total as nat) && (stats_tx.is_none()
                ==> !p.stats_dropped),
            Err(e) => send_result_is(SendStatus::Disconnected, Err(e)),
        },
{
    let n = packets.len() as u64;
    let batch: PacketBatch = std::sync::Arc::new(packets);
    let data_dropped = match write_batch_to_channel(&batch, data_tx) {
        Ok(d) => d,
        Err(e) => {
            return Err(e);
        },
    };
    let stats_dropped = match stats_tx {
        Some(tx) => match write_batch_to_channel(&batch, tx) {
            Ok(d) => d,
            Err(e) => {
                return Err(e);
            },
        },
        None => false,
    };
    let total = shared_state.add_count(n);
    let stop = count_reached(max_count, total);
    if stop {
        shared_state.signal_exit();
    }
    Ok(Published { data_dropped, stats_dropped, total, stop })
}

/// The counter once the reader has stopped, starting from `total` with
/// batches of `sizes` packets arriving: before each batch the limit is
/// tested, each batch is cut to what the limit still allows, and reading
/// ends when the limit is reached. Only the reader adds to the counter.
pub open spec fn run_total(max_count: nat, total: nat, sizes: Seq<nat>) -> nat
    decreases sizes.len(),
{
    if sizes.len() == 0 || gate_closed(max_count, total) {
        total
    } else {
        let t = total + clamp_spec(sizes[0], max_count, total);
        if gate_closed(max_count, t) {
            t
        } else {
            run_total(max_count, t, sizes.drop_first())
        }
    }
}

/// The sum of a sequence of sizes.
pub open spec fn sum(sizes: Seq<nat>) -> nat
    decreases sizes.len(),
{
    if sizes.len() == 0 { 0 } else { sizes[0] + sum(sizes.drop_first()) }
}

/// With a finite max count `M`, a run never counts more than `M` packets,
/// and counts exactly `M` when the source offers at least `M`.
pub proof fn lemma_max_count(max_count: nat, total: nat, sizes: Seq<nat>)
    requires
        max_count > 0,
        total <= max_count,
    ensures
        run_total(max_count, total, sizes) <= max_count,
        total + sum(sizes) >= max_count ==> run_total(max_count, total, sizes) == max_count,
    decreases sizes.len(),
{
    if sizes.len() > 0 && !gate_closed(max_count, total) {
        let t = total + clamp_spec(sizes[0], max_count, total);
        if !gate_closed(max_count, t) {
            lemma_max_count(max_count, t, sizes.drop_first());
        }
    }
}

/// Where the reader takes packets from.
#[derive(Debug, Clone, Copy, PartialEq, Eq, Structural)]
pub enum ReaderSource {
    Stdin,
    File,
    Network,
}

pub open spec fn source_spec(input: Option<Seq<char>>) -> ReaderSource {
    match input {
        Some(i) => if i == "-"@ { ReaderSource::Stdin } else { ReaderSource::File },
        None => ReaderSource::Network,
    }
}

/// `-` is standard input, another name a file, and no input the network.
pub fn select_source(input: &Option<String>) -> (r: ReaderSource)
    ensures
        r == source_spec(
            match input {
                Some(i) => Some(i@),
                None => None,
            },
        ),
{
    match input {
        Some(i) => if is_dash(i.as_str()) {
            ReaderSource::Stdin
        } else {
            ReaderSource::File
        },
        None => ReaderSource::Network,
    }
}

} // verus!
