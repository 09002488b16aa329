//! A Raft node: its roles, the messages it exchanges, the decisions it
//! makes, and the driver of its state machine.
pub mod candidate;
pub mod follower;
pub mod leader;
pub mod message;
pub mod node;
pub mod state;

use vstd::prelude::*;
use std::collections::HashMap;
use rand::Rng;

verus! {

/// The interval between leader heartbeats, in ticks
pub const HEARTBEAT_INTERVAL: u64 = 1;

/// The minimum election timeout, in ticks
pub const ELECTION_TIMEOUT_MIN: u64 = 8;

/// The maximum election timeout, in ticks
pub const ELECTION_TIMEOUT_MAX: u64 = 15;

/// Node status
#[derive(Clone, Debug, PartialEq)]
pub struct Status {
    pub server: String,
    pub leader: String,
    pub term: u64,
    pub node_last_index: HashMap<String, u64>,
    pub commit_index: u64,
    pub apply_index: u64,
    pub storage: String,
    pub storage_size: u64,
}

/// `rand::thread_rng().gen_range(low..high)`: a number drawn from
/// `low..high`. Which number is drawn is left open; it lies in the range.
#[verifier::external_body]
pub(crate) fn random_in_range(low: u64, high: u64) -> (r: u64)
    requires
        low < high,
    ensures
        low <= r < high,
{
    rand::thread_rng().gen_range(low..high)
}

} // verus!
