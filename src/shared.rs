//! State shared by every stage of the pipeline.
use vstd::prelude::*;

use std::sync::atomic::{AtomicBool, AtomicU64, Ordering};
use std::sync::Arc;

use crate::packet::PacketType;

verus! {

/// The packet counter and the exit flag, shared between threads, and the
/// settings fixed at startup. The counter and the flag are advisory: other
/// threads change them at any time, so nothing is promised of what a read
/// returns.
#[derive(Clone)]
pub struct SharedState {
    pub packet_count: Arc<AtomicU64>,
    pub should_exit: Arc<AtomicBool>,
    pub packet_type: PacketType,
    pub verbose: bool,
}

impl SharedState {
    pub fn new(packet_type: PacketType, verbose: bool) -> (r: SharedState)
        ensures
            r.packet_type == packet_type,
            r.verbose == verbose,
    {
        SharedState {
            packet_count: Arc::new(AtomicU64::new(0)),
            should_exit: Arc::new(AtomicBool::new(false)),
            packet_type,
            verbose,
        }
    }

    /// Adds `delta` to the packet counter and returns the new total.
    pub fn add_count(&self, delta: u64) -> u64 {
        self.packet_count.fetch_add(delta, Ordering::Relaxed).wrapping_add(delta)
    }

    pub fn get_count(&self) -> u64 {
        self.packet_count.load(Ordering::Relaxed)
    }

    /// Raises the exit flag; raising it again changes nothing.
    pub fn signal_exit(&self) {
        self.should_exit.store(true, Ordering::Relaxed);
    }

    pub fn should_exit(&self) -> bool {
        self.should_exit.load(Ordering::Relaxed)
    }
}

} // verus!
