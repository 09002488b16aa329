//! A node serving as leader.
use vstd::prelude::*;
use vstd::hash_map::StringHashMap;
use crate::raft::HEARTBEAT_INTERVAL;
use crate::raft::candidate::peer_name;
use crate::raft::message::{Address, Error, Event, Message, Request};
use crate::raft::node::{rejection, validate};
use crate::raft::state::Instruction;

verus! {

/// A leader serves requests and replicates the log to followers
pub struct Leader {
    /// Number of ticks since last heartbeat
    pub heartbeat_ticks: u64,
    /// The next index to replicate to peer
    pub peer_next_index: StringHashMap<u64>,
    /// The last index known to be replicated on a peer
    pub peer_last_index: StringHashMap<u64>,
}

/// The names of `peers`.
pub open spec fn peer_names(peers: Seq<String>) -> Seq<Seq<char>> {
    peers.map_values(|s: String| s@)
}

/// The map from each name in `names` to `value`.
pub open spec fn each_peer(names: Seq<Seq<char>>, value: u64) -> Map<Seq<char>, u64> {
    Map::new(|name: Seq<char>| names.contains(name), |name: Seq<char>| value)
}

proof fn lemma_each_peer_push(names: Seq<Seq<char>>, i: int, value: u64)
    requires
        0 <= i < names.len(),
    ensures
        each_peer(names.take(i + 1), value) == each_peer(names.take(i), value).insert(names[i], value),
{
    let longer = names.take(i + 1);
    let shorter = names.take(i);
    assert(longer =~= shorter.push(names[i]));
    assert forall|name: Seq<char>| #[trigger] longer.contains(name) <==> (shorter.contains(name) || name
        == names[i]) by {
        if longer.contains(name) {
            let j = choose|j: int| 0 <= j < longer.len() && longer[j] == name;
            if j < i {
                assert(shorter[j] == name);
            }
        }
        if shorter.contains(name) {
            let j = choose|j: int| 0 <= j < shorter.len() && shorter[j] == name;
            assert(longer[j] == name);
        }
        if name == names[i] {
            assert(longer[i] == name);
        }
    }
    assert(each_peer(names.take(i + 1), value) =~= each_peer(names.take(i), value).insert(names[i], value));
}

impl Leader {
    /// Creates a new leader role: every peer is next sent the entry after
    /// `last_index`, and none is known to hold any entry.
    pub fn new(peers: Vec<String>, last_index: u64) -> (leader: Self)
        requires
            last_index < u64::MAX,
        ensures
            leader.heartbeat_ticks == 0,
            leader.peer_next_index@ == each_peer(peer_names(peers@), (last_index + 1) as u64),
            leader.peer_last_index@ == each_peer(peer_names(peers@), 0),
    {
        let mut leader = Self {
            heartbeat_ticks: 0,
            peer_next_index: StringHashMap::new(),
            peer_last_index: StringHashMap::new(),
        };
        let ghost names = peer_names(peers@);
        let ghost next = (last_index + 1) as u64;
        assert(leader.peer_next_index@ =~= each_peer(names.take(0), next));
        assert(leader.peer_last_index@ =~= each_peer(names.take(0), 0));
        for peer in it: peers
            invariant
                names == peer_names(it.seq()),
                leader.heartbeat_ticks == 0,
                next == last_index + 1,
                leader.peer_next_index@ == each_peer(names.take(it.index() as int), next),
                leader.peer_last_index@ == each_peer(names.take(it.index() as int), 0),
        {
            let ghost i = it.index() as int;
            proof {
                assert(names[i] == peer@);
                lemma_each_peer_push(names, i, next);
                lemma_each_peer_push(names, i, 0);
            }
            leader.peer_next_index.insert(peer.clone(), last_index + 1);
            leader.peer_last_index.insert(peer.clone(), 0);
        }
        proof {
            assert(names.take(names.len() as int) =~= names);
        }
        leader
    }
}

/// What the leader at `term`, with its log committed through
/// `commit_index` in `commit_term` and a cluster quorum of `quorum`, sends
/// for the query `command` of request `id` from `from`: the query to the
/// state machine, to run at the commit index once a quorum confirms it; its
/// own vote for that; and, when it has peers, a heartbeat to all of them
/// asking for their confirmation.
pub fn leader_query(
    id: Vec<u8>,
    from: Address,
    command: Vec<u8>,
    term: u64,
    commit_index: u64,
    commit_term: u64,
    quorum: u64,
    has_peers: bool,
) -> (r: (Instruction, Instruction, Option<Message>))
    ensures
        r.0 matches Instruction::Query { id: i, address, command: c, term: t, index, quorum: q } && i@ == id@
            && address@ == from@ && c@ == command@ && t == term && index == commit_index && q == quorum,
        r.1 matches Instruction::Vote { term: t, index, address } && t == term && index == commit_index
            && address is Local,
        has_peers ==> (r.2 matches Some(m) && m.from is Local && m.to is Peers && m.term == term && (
        m.event matches Event::Heartbeat { commit_index: ci, commit_term: ct } && ci == commit_index && ct
            == commit_term)),
        !has_peers ==> r.2 is None,
{
    let query = Instruction::Query { id, address: from, command, term, index: commit_index, quorum };
    let vote = Instruction::Vote { term, index: commit_index, address: Address::Local };
    let heartbeat = if has_peers {
        Some(Message {
            from: Address::Local,
            to: Address::Peers,
            term,
            event: Event::Heartbeat { commit_index, commit_term },
        })
    } else {
        None
    };
    (query, vote, heartbeat)
}

/// The vote a follower's confirmation of the leader at `term` casts for the
/// queries up to `commit_index`, from `from`.
pub fn confirm_vote(term: u64, commit_index: u64, from: Address) -> (r: Instruction)
    ensures
        r matches Instruction::Vote { term: t, index, address } && t == term && index == commit_index
            && address@ == from@,
{
    Instruction::Vote { term, index: commit_index, address: from }
}

/// What a leader does with a message.
#[derive(Debug, PartialEq)]
pub enum LeaderStep {
    /// The message is invalid: it is dropped, and the reason logged.
    Ignore(Error),
    /// A peer is at a later term: follow it at that term (aborting what the
    /// state machine has pending) and handle the message again.
    Follow { term: u64, leader: String },
    /// A follower confirmed the leadership at `commit_index`: count its vote
    /// for the queries up to there, and replicate to it again when it lacks
    /// the committed entry.
    Confirm { peer: String, commit_index: u64, replicate: bool },
    /// A follower took entries, and its indexes were recorded: commit what a
    /// quorum holds.
    Accepted,
    /// A follower lacked the base entry, and its next index was stepped
    /// back: replicate to it again.
    Rejected { peer: String },
    /// A query: the state machine runs it once a quorum confirms the commit
    /// index, and the leader votes for it and sends a heartbeat.
    Query,
    /// A mutation: append it to the log, replicate it, and notify the
    /// client when it is applied.
    Mutate,
    /// A status request: answer with the cluster status.
    Status,
    /// The client response goes on to the client, with this node as the
    /// status's server.
    Respond,
    /// Nothing to do: a late vote or solicitation from the election won.
    Nothing,
    /// A message no leader expects; it is logged.
    Unexpected,
}

/// The next index a rejection leaves for a peer: one less, but not below 1.
pub open spec fn stepped_back(next: u64) -> u64 {
    if next > 1 {
        (next - 1) as u64
    } else {
        next
    }
}

/// What the leader commits, with its log committed through `commit_index`,
/// `quorum_index` the highest index a quorum of the cluster holds, and
/// `entry_term` the term of the log's entry there (`None` when the log has
/// none): when the quorum index is past the commit index and its entry is
/// of the leader's own `term`, the log commits through the quorum index and
/// the entries after the old commit index through it are applied. Returns
/// the first and last index of those entries, or `None` when nothing is
/// committed.
pub fn commit_range(commit_index: u64, quorum_index: u64, entry_term: Option<u64>, term: u64) -> (r: Option<(u64, u64)>)
    ensures
        r == (if quorum_index > commit_index && entry_term == Some(term) {
            Some(((commit_index + 1) as u64, quorum_index))
        } else {
            None::<(u64, u64)>
        }),
{
    if quorum_index > commit_index {
        match entry_term {
            Some(t) => {
                if t == term {
                    return Some((commit_index + 1, quorum_index));
                }
            },
            None => {},
        }
    }
    None
}

/// How many of `indexes` are at least `v`.
pub open spec fn count_at_least(indexes: Seq<u64>, v: u64) -> nat
    decreases indexes.len(),
{
    if indexes.len() == 0 {
        0
    } else {
        count_at_least(indexes.drop_last(), v) + if indexes.last() >= v {
            1nat
        } else {
            0nat
        }
    }
}

proof fn lemma_count_take(indexes: Seq<u64>, j: int, v: u64)
    requires
        0 <= j < indexes.len(),
    ensures
        count_at_least(indexes.take(j + 1), v) == count_at_least(indexes.take(j), v) + if indexes[j] >= v {
            1nat
        } else {
            0nat
        },
{
    assert(indexes.take(j + 1).drop_last() =~= indexes.take(j));
}

/// Every index reaches a value no greater than all of them.
proof fn lemma_count_all(indexes: Seq<u64>, v: u64)
    requires
        forall|k: int| 0 <= k < indexes.len() ==> indexes[k] >= v,
    ensures
        count_at_least(indexes, v) == indexes.len(),
    decreases indexes.len(),
{
    if indexes.len() > 0 {
        lemma_count_all(indexes.drop_last(), v);
    }
}

/// The highest of the last indexes of the cluster's nodes that at least
/// `quorum` of them reach: the entry there is held by a quorum, and no
/// later index is. Taking the indexes from the highest down, it is the one
/// at place `quorum`.
pub fn quorum_index(indexes: &Vec<u64>, quorum: u64) -> (r: u64)
    requires
        1 <= quorum <= indexes.len(),
    ensures
        indexes@.contains(r),
        count_at_least(indexes@, r) >= quorum,
        forall|k: int| 0 <= k < indexes.len() && count_at_least(indexes@, #[trigger] indexes@[k]) >= quorum
            ==> indexes@[k] <= r,
{
    let n = indexes.len();
    let mut best: u64 = 0;
    let mut found = false;
    let mut lowest: u64 = indexes[0];
    let ghost mut lowest_at: int = 0;
    let mut i: usize = 0;
    while i < n
        invariant
            n == indexes.len(),
            1 <= quorum <= n,
            i <= n,
            0 <= lowest_at < n,
            indexes@[lowest_at] == lowest,
            forall|k: int| 0 <= k < i ==> lowest <= #[trigger] indexes@[k],
            found ==> indexes@.contains(best) && count_at_least(indexes@, best) >= quorum,
            forall|k: int| 0 <= k < i && count_at_least(indexes@, #[trigger] indexes@[k]) >= quorum ==> found
                && indexes@[k] <= best,
        decreases n - i,
    {
        let c = indexes[i];
        let mut count: usize = 0;
        let mut j: usize = 0;
        while j < n
            invariant
                n == indexes.len(),
                j <= n,
                count <= j,
                count == count_at_least(indexes@.take(j as int), c),
            decreases n - j,
        {
            proof {
                lemma_count_take(indexes@, j as int, c);
            }
            if indexes[j] >= c {
                count = count + 1;
            }
            j = j + 1;
        }
        proof {
            assert(indexes@.take(n as int) =~= indexes@);
        }
        if count as u64 >= quorum && (!found || c > best) {
            best = c;
            found = true;
        }
        if c < lowest {
            lowest = c;
            proof {
                lowest_at = i as int;
            }
        }
        i = i + 1;
    }
    proof {
        lemma_count_all(indexes@, lowest);
        assert(count_at_least(indexes@, indexes@[lowest_at]) >= quorum);
    }
    best
}

impl Leader {
    /// Moves time forward by a tick; returns whether a heartbeat is due.
    /// Without peers no heartbeat is ever due.
    pub fn tick(&mut self, has_peers: bool) -> (heartbeat: bool)
        requires
            old(self).heartbeat_ticks < u64::MAX,
        ensures
            heartbeat == (has_peers && old(self).heartbeat_ticks + 1 >= HEARTBEAT_INTERVAL),
            final(self).heartbeat_ticks == if !has_peers {
                old(self).heartbeat_ticks
            } else if heartbeat {
                0
            } else {
                (old(self).heartbeat_ticks + 1) as u64
            },
            final(self).peer_next_index@ == old(self).peer_next_index@,
            final(self).peer_last_index@ == old(self).peer_last_index@,
    {
        if has_peers {
            self.heartbeat_ticks = self.heartbeat_ticks + 1;
            if self.heartbeat_ticks >= HEARTBEAT_INTERVAL {
                self.heartbeat_ticks = 0;
                return true;
            }
        }
        false
    }

    /// Decides what the leader of node `id` at `term` does with `msg`. An
    /// acceptance records the peer's last index and the next index after
    /// it; a rejection steps the peer's next index back.
    pub fn step(&mut self, id: &String, term: u64, msg: &Message) -> (r: LeaderStep)
        requires
            msg.event matches Event::AcceptEntries { last_index } ==> last_index < u64::MAX,
        ensures
            final(self).heartbeat_ticks == old(self).heartbeat_ticks,
            match rejection(id@, term, *msg) {
                Some(text) => r matches LeaderStep::Ignore(Error::Internal(s)) && s@ == text
                    && final(self).peer_next_index@ == old(self).peer_next_index@
                    && final(self).peer_last_index@ == old(self).peer_last_index@,
                None => if msg.from is Peer && msg.term > term {
                    &&& r matches LeaderStep::Follow { term: t, leader } && t == msg.term && leader@ == peer_name(
                        msg.from,
                    )
                    &&& final(self).peer_next_index@ == old(self).peer_next_index@
                    &&& final(self).peer_last_index@ == old(self).peer_last_index@
                } else {
                    &&& match msg.event {
                        Event::AcceptEntries { last_index } => msg.from is Peer ==> {
                            &&& final(self).peer_last_index@ == old(self).peer_last_index@.insert(
                                peer_name(msg.from),
                                last_index,
                            )
                            &&& final(self).peer_next_index@ == old(self).peer_next_index@.insert(
                                peer_name(msg.from),
                                (last_index + 1) as u64,
                            )
                        },
                        Event::RejectEntries => {
                            &&& final(self).peer_last_index@ == old(self).peer_last_index@
                            &&& final(self).peer_next_index@ == if msg.from is Peer
                                && old(self).peer_next_index@.contains_key(peer_name(msg.from)) {
                                old(self).peer_next_index@.insert(
                                    peer_name(msg.from),
                                    stepped_back(old(self).peer_next_index@[peer_name(msg.from)]),
                                )
                            } else {
                                old(self).peer_next_index@
                            }
                        },
                        _ => final(self).peer_next_index@ == old(self).peer_next_index@
                            && final(self).peer_last_index@ == old(self).peer_last_index@,
                    }
                    &&& match msg.event {
                        Event::ConfirmLeader { commit_index, has_committed } => if msg.from is Peer {
                            r matches LeaderStep::Confirm { peer, commit_index: c, replicate } && peer@
                                == peer_name(msg.from) && c == commit_index && replicate == !has_committed
                        } else {
                            r is Nothing
                        },
                        Event::AcceptEntries { .. } => r is Accepted,
                        Event::RejectEntries => if msg.from is Peer {
                            r matches LeaderStep::Rejected { peer } && peer@ == peer_name(msg.from)
                        } else {
                            r is Nothing
                        },
                        Event::ClientRequest { request, .. } => match request {
                            Request::Query(_) => r is Query,
                            Request::Mutate(_) => r is Mutate,
                            Request::Status => r is Status,
                        },
                        Event::ClientResponse { .. } => r is Respond,
                        Event::SolicitVote { .. } => r is Nothing,
                        Event::GrantVote => r is Nothing,
                        _ => r is Unexpected,
                    }
                },
            },
    {
        match validate(id, term, msg) {
            Err(e) => return LeaderStep::Ignore(e),
            Ok(()) => {},
        }
        if let Address::Peer(from) = &msg.from {
            if msg.term > term {
                return LeaderStep::Follow { term: msg.term, leader: from.clone() };
            }
        }
        match &msg.event {
            Event::ConfirmLeader { commit_index, has_committed } => match &msg.from {
                Address::Peer(from) => LeaderStep::Confirm {
                    peer: from.clone(),
                    commit_index: *commit_index,
                    replicate: !*has_committed,
                },
                _ => LeaderStep::Nothing,
            },
            Event::AcceptEntries { last_index } => {
                if let Address::Peer(from) = &msg.from {
                    self.peer_last_index.insert(from.clone(), *last_index);
                    self.peer_next_index.insert(from.clone(), *last_index + 1);
                }
                LeaderStep::Accepted
            },
            Event::RejectEntries => match &msg.from {
                Address::Peer(from) => {
                    let next = match self.peer_next_index.get(from.as_str()) {
                        Some(i) => Some(*i),
                        None => None,
                    };
                    if let Some(i) = next {
                        if i > 1 {
                            self.peer_next_index.insert(from.clone(), i - 1);
                        }
                    }
                    LeaderStep::Rejected { peer: from.clone() }
                },
                _ => LeaderStep::Nothing,
            },
            Event::ClientRequest { request, .. } => match request {
                Request::Query(_) => LeaderStep::Query,
                Request::Mutate(_) => LeaderStep::Mutate,
                Request::Status => LeaderStep::Status,
            },
            Event::ClientResponse { .. } => LeaderStep::Respond,
            Event::SolicitVote { .. } => LeaderStep::Nothing,
            Event::GrantVote => LeaderStep::Nothing,
            _ => LeaderStep::Unexpected,
        }
    }
}

} // verus!
