//! Process configuration constants consumed by the replication layer.

use vstd::prelude::*;

verus! {

/// Length of one match round, in seconds; the round timer is armed to
/// "now plus this" whenever a match starts or an anchor snapshot arrives.
pub const TIME: u64 = 60;

/// Size of the fixed local collectible collection.
pub const NUM_SNACKS: usize = 10;

/// Frames are capped to this many bytes on receive; the cap is a protocol
/// constant, not a tunable.
pub const RECV_BUFFER: usize = 64;

} // verus!
