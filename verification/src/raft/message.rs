//! The messages Raft nodes and clients exchange.
use vstd::prelude::*;
use crate::raft::Status;

verus! {

/// Where a message comes from or goes to.
#[derive(Clone, Debug, PartialEq)]
pub enum Address {
    /// A client of the local node.
    Client,
    /// The local node itself.
    Local,
    /// A peer, by its id.
    Peer(String),
    /// Every peer at once.
    Peers,
}

/// A log entry.
#[derive(Clone, Debug, PartialEq)]
pub struct Entry {
    pub index: u64,
    pub term: u64,
    pub command: Option<Vec<u8>>,
}

/// A client request.
#[derive(Clone, Debug, PartialEq)]
pub enum Request {
    /// Reads the state machine.
    Query(Vec<u8>),
    /// Changes the state machine.
    Mutate(Vec<u8>),
    /// Asks for the cluster status.
    Status,
}

/// A response to a client request.
#[derive(Clone, Debug, PartialEq)]
pub enum Response {
    /// What the state machine answered.
    State(Vec<u8>),
    /// The cluster status.
    Status(Status),
}

/// Why a request or message failed.
#[derive(Clone, Debug, PartialEq)]
pub enum Error {
    /// The request was aborted, e.g. by a change of leader.
    Abort,
    /// Something is wrong inside the node; the text says what.
    Internal(String),
}

/// What a message says.
#[derive(Debug, PartialEq)]
pub enum Event {
    /// The leader's heartbeat, with its commit index and term.
    Heartbeat { commit_index: u64, commit_term: u64 },
    /// A follower's answer to a heartbeat.
    ConfirmLeader { commit_index: u64, has_committed: bool },
    /// A candidate asks for votes.
    SolicitVote { last_index: u64, last_term: u64 },
    /// A vote for the candidate.
    GrantVote,
    /// The leader replicates entries after a base entry.
    ReplicateEntries { base_index: u64, base_term: u64, entries: Vec<Entry> },
    /// A follower took the entries up to `last_index`.
    AcceptEntries { last_index: u64 },
    /// A follower lacks the base entry.
    RejectEntries,
    /// A client request.
    ClientRequest { id: Vec<u8>, request: Request },
    /// The response to a client request.
    ClientResponse { id: Vec<u8>, response: Result<Response, Error> },
}

/// A message between nodes, or between a node and its clients.
#[derive(Debug, PartialEq)]
pub struct Message {
    pub from: Address,
    pub to: Address,
    pub term: u64,
    pub event: Event,
}

impl View for Address {
    type V = (u8, Seq<char>);

    /// An address as its kind and, for a peer, its id.
    open spec fn view(&self) -> (u8, Seq<char>) {
        match self {
            Address::Client => (0u8, Seq::empty()),
            Address::Local => (1u8, Seq::empty()),
            Address::Peer(p) => (2u8, p@),
            Address::Peers => (3u8, Seq::empty()),
        }
    }
}

/// Whether two addresses are the same.
pub fn same_address(a: &Address, b: &Address) -> (r: bool)
    ensures
        r == (a@ == b@),
{
    match (a, b) {
        (Address::Client, Address::Client) => true,
        (Address::Local, Address::Local) => true,
        (Address::Peer(x), Address::Peer(y)) => *x == *y,
        (Address::Peers, Address::Peers) => true,
        _ => false,
    }
}

/// A copy of an address.
pub fn copy_address(a: &Address) -> (r: Address)
    ensures
        r@ == a@,
{
    match a {
        Address::Client => Address::Client,
        Address::Local => Address::Local,
        Address::Peer(p) => Address::Peer(p.clone()),
        Address::Peers => Address::Peers,
    }
}

} // verus!
