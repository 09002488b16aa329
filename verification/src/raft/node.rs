//! What every Raft node decides the same way, whatever its role: the size
//! of a quorum and which messages it accepts.
use vstd::prelude::*;
use crate::raft::message::{Address, Error, Event, Message};
use crate::raft::follower::Follower;
use crate::raft::leader::{each_peer, peer_names, Leader};
use crate::raft::{ELECTION_TIMEOUT_MAX, ELECTION_TIMEOUT_MIN};

verus! {

/// The quorum size of a cluster of `peers` peers and the local node.
pub open spec fn spec_quorum(peers: nat) -> nat {
    (peers + 1) / 2 + 1
}

/// Returns the quorum size of the cluster.
pub fn quorum(peers: usize) -> (q: u64)
    ensures
        q == spec_quorum(peers as nat),
{
    let p = peers as u64;
    p / 2 + p % 2 + 1
}

/// A quorum is a strict majority of the cluster, and the smallest one: any
/// two quorums share a node, together they count more than the cluster's
/// nodes, while one node fewer is no majority. It takes at least one node
/// and at most all of them.
pub proof fn lemma_quorums_intersect(peers: nat)
    ensures
        2 * spec_quorum(peers) > peers + 1,
        2 * (spec_quorum(peers) - 1) <= peers + 1,
        1 <= spec_quorum(peers) <= peers + 1,
{
}

/// The decimal digit `d`.
pub open spec fn digit(d: nat) -> char {
    seq!['0', '1', '2', '3', '4', '5', '6', '7', '8', '9'][d as int]
}

/// The decimal digits of `n`, most significant first, without leading
/// zeros.
pub open spec fn decimal(n: nat) -> Seq<char>
    decreases n,
{
    if n < 10 {
        seq![digit(n)]
    } else {
        decimal(n / 10).push(digit(n % 10))
    }
}

/// `format!("Message from past term {}", term)`: the text, then `term` in
/// decimal.
#[verifier::external_body]
fn past_term_text(term: u64) -> (s: String)
    ensures
        s@ == "Message from past term "@ + decimal(term as nat),
{
    format!("Message from past term {}", term)
}

/// `format!("State machine applied index {} greater than log committed
/// index {}", applied, committed)`: the text with both indexes in decimal.
#[verifier::external_body]
fn applied_ahead_text(applied: u64, committed: u64) -> (s: String)
    ensures
        s@ == "State machine applied index "@ + decimal(applied as nat) + " greater than log committed index "@
            + decimal(committed as nat),
{
    format!("State machine applied index {} greater than log committed index {}", applied, committed)
}

/// The role a node starts in.
pub enum StartRole {
    Follower(Follower),
    Leader(Leader),
}

/// How a node starts: the first and last index of the log entries to
/// replay into its state machine, if any, its term, and its role.
pub struct NodeStart {
    pub replay: Option<(u64, u64)>,
    pub term: u64,
    pub role: StartRole,
}

/// How a node starts, from the index its state machine has applied, the
/// index its log has committed, its number of peers, the term and vote its
/// log saved, and the last index of its log. A state machine ahead of the
/// log is an error. Otherwise the entries after the applied index through
/// the committed one are replayed, and the node starts at the saved term:
/// as the leader when it has no peers, else as a follower of no leader yet
/// that keeps the saved vote.
pub fn node_start(
    applied_index: u64,
    commit_index: u64,
    peers: usize,
    term: u64,
    voted_for: Option<&str>,
    last_index: u64,
) -> (r: Result<NodeStart, Error>)
    requires
        peers == 0 ==> last_index < u64::MAX,
    ensures
        applied_index > commit_index ==> (r matches Err(Error::Internal(s)) && s@ == "State machine applied index "@
            + decimal(applied_index as nat) + " greater than log committed index "@ + decimal(commit_index as nat)),
        applied_index <= commit_index ==> (r matches Ok(st) && {
            &&& st.replay == if commit_index > applied_index {
                Some(((applied_index + 1) as u64, commit_index))
            } else {
                None::<(u64, u64)>
            }
            &&& st.term == term
            &&& peers == 0 ==> (st.role matches StartRole::Leader(l) && {
                &&& l.heartbeat_ticks == 0
                &&& l.peer_next_index@ == each_peer(peer_names(Seq::<String>::empty()), (last_index + 1) as u64)
                &&& l.peer_last_index@ == each_peer(peer_names(Seq::<String>::empty()), 0)
            })
            &&& peers != 0 ==> (st.role matches StartRole::Follower(f) && {
                &&& f.leader is None
                &&& match voted_for {
                    Some(v) => f.voted_for matches Some(s) && s@ == v@,
                    None => f.voted_for is None,
                }
                &&& f.leader_seen_ticks == 0
                &&& ELECTION_TIMEOUT_MIN <= f.leader_seen_timeout < ELECTION_TIMEOUT_MAX
            })
        }),
{
    if applied_index > commit_index {
        return Err(Error::Internal(applied_ahead_text(applied_index, commit_index)));
    }
    let replay = if commit_index > applied_index {
        Some((applied_index + 1, commit_index))
    } else {
        None
    };
    let role = if peers == 0 {
        let no_peers: Vec<String> = Vec::new();
        StartRole::Leader(Leader::new(no_peers, last_index))
    } else {
        StartRole::Follower(Follower::new(None, voted_for))
    };
    Ok(NodeStart { replay, term, role })
}

/// `format!("Received message for other node {}", id)`: the text, then
/// `id`.
#[verifier::external_body]
fn other_node_text(id: &String) -> (s: String)
    ensures
        s@ == "Received message for other node "@ + id@,
{
    format!("Received message for other node {}", id)
}

/// Why a node `id` at `term` refuses `msg`, or `None` when it accepts it:
/// nothing comes from the broadcast address or the node itself, a client
/// sends only requests, only client requests and responses may be from a
/// past term, and the message is for this node, the local node or all
/// peers.
pub open spec fn rejection(id: Seq<char>, term: u64, msg: Message) -> Option<Seq<char>> {
    if msg.from is Peers {
        Some("Message from broadcast address"@)
    } else if msg.from is Local {
        Some("Message from local node"@)
    } else if msg.from is Client && !(msg.event is ClientRequest) {
        Some("Non-request message from client"@)
    } else if msg.term < term && !(msg.event is ClientRequest || msg.event is ClientResponse) {
        Some("Message from past term "@ + decimal(msg.term as nat))
    } else {
        match msg.to {
            Address::Peer(p) => if p@ == id {
                None
            } else {
                Some("Received message for other node "@ + p@)
            },
            Address::Local => None,
            Address::Peers => None,
            Address::Client => Some("Received message for client"@),
        }
    }
}

/// A message a peer sends from a past term is refused, whatever it is
/// addressed to, unless it is a client request or response passed on: the
/// reason names that term.
pub proof fn lemma_past_term_refused(id: Seq<char>, term: u64, msg: Message)
    requires
        msg.from is Peer,
        msg.term < term,
        !(msg.event is ClientRequest),
        !(msg.event is ClientResponse),
    ensures
        rejection(id, term, msg) == Some("Message from past term "@ + decimal(msg.term as nat)),
{
}

/// Nothing is accepted from the broadcast address or the local node, a
/// client may send only requests, and nothing addressed to a client or to
/// another peer is accepted.
pub proof fn lemma_senders_and_receivers_refused(id: Seq<char>, term: u64, msg: Message)
    ensures
        msg.from is Peers || msg.from is Local ==> rejection(id, term, msg) is Some,
        msg.from is Client && !(msg.event is ClientRequest) ==> rejection(id, term, msg) is Some,
        msg.to is Client ==> rejection(id, term, msg) is Some,
        (msg.to matches Address::Peer(p) && p@ != id) ==> rejection(id, term, msg) is Some,
{
}

/// A message a peer sends from the node's term or a later one, addressed
/// to the node itself, to the local node or to all peers, is accepted.
pub proof fn lemma_current_peer_accepted(id: Seq<char>, term: u64, msg: Message)
    requires
        msg.from is Peer,
        msg.term >= term,
        msg.to is Local || msg.to is Peers || (msg.to matches Address::Peer(p) && p@ == id),
    ensures
        rejection(id, term, msg) is None,
{
}

/// Checks a message the node `id` at `term` receives: `Ok` when it is
/// accepted, else an internal error that says why.
pub fn validate(id: &String, term: u64, msg: &Message) -> (res: Result<(), Error>)
    ensures
        match rejection(id@, term, *msg) {
            None => res is Ok,
            Some(text) => res matches Err(Error::Internal(s)) && s@ == text,
        },
{
    match &msg.from {
        Address::Peers => return Err(Error::Internal("Message from broadcast address".to_string())),
        Address::Local => return Err(Error::Internal("Message from local node".to_string())),
        Address::Client => {
            if !matches!(msg.event, Event::ClientRequest { .. }) {
                return Err(Error::Internal("Non-request message from client".to_string()));
            }
        },
        Address::Peer(_) => {},
    }
    if msg.term < term && !matches!(msg.event, Event::ClientRequest { .. } | Event::ClientResponse { .. }) {
        return Err(Error::Internal(past_term_text(msg.term)));
    }
    match &msg.to {
        Address::Peer(p) => {
            if *p == *id {
                Ok(())
            } else {
                Err(Error::Internal(other_node_text(p)))
            }
        },
        Address::Local => Ok(()),
        Address::Peers => Ok(()),
        Address::Client => Err(Error::Internal("Received message for client".to_string())),
    }
}

} // verus!
