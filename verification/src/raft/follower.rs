//! A node following a leader.
use vstd::prelude::*;
use crate::raft::{random_in_range, ELECTION_TIMEOUT_MAX, ELECTION_TIMEOUT_MIN};
use crate::raft::candidate::{campaign, peer_name, Candidate};
use crate::raft::message::{Address, Error, Event, Message};
use crate::raft::node::{rejection, validate};

verus! {

/// A follower replicates state from a leader
#[derive(Debug)]
pub struct Follower {
    /// The leader, or None if just initialized
    pub leader: Option<String>,
    /// The number of ticks since the last message from the leader
    pub leader_seen_ticks: u64,
    /// The timeout before triggering an election
    pub leader_seen_timeout: u64,
    /// The node we voted for in the current term, if any
    pub voted_for: Option<String>,
}

/// An owned copy of an optional name.
fn owned(name: Option<&str>) -> (r: Option<String>)
    ensures
        match name {
            Some(n) => r matches Some(s) && s@ == n@,
            None => r is None,
        },
{
    match name {
        Some(n) => Some(n.to_owned()),
        None => None,
    }
}

impl Follower {
    /// A follower of `leader` that voted for `voted_for`, with no ticks seen
    /// yet and a timeout drawn from the election timeout range.
    pub fn new(leader: Option<&str>, voted_for: Option<&str>) -> (f: Self)
        ensures
            match leader {
                Some(l) => f.leader matches Some(s) && s@ == l@,
                None => f.leader is None,
            },
            match voted_for {
                Some(v) => f.voted_for matches Some(s) && s@ == v@,
                None => f.voted_for is None,
            },
            f.leader_seen_ticks == 0,
            ELECTION_TIMEOUT_MIN <= f.leader_seen_timeout < ELECTION_TIMEOUT_MAX,
    {
        Self {
            leader: owned(leader),
            voted_for: owned(voted_for),
            leader_seen_ticks: 0,
            leader_seen_timeout: random_in_range(ELECTION_TIMEOUT_MIN, ELECTION_TIMEOUT_MAX),
        }
    }
}

/// What a follower does with a message.
#[derive(Debug, PartialEq)]
pub enum FollowerStep {
    /// The message is invalid: it is dropped, and the reason logged.
    Ignore(Error),
    /// The sender is at a later term, or there is no leader yet: follow the
    /// sender at the message's term and handle the message again.
    Follow { term: u64, leader: String },
    /// The leader's heartbeat: commit up to its commit index if the log
    /// holds that entry, and confirm to the leader.
    Heartbeat { commit_index: u64, commit_term: u64 },
    /// Grant the candidate the vote: answer it and save the vote with the
    /// term.
    Vote { candidate: String },
    /// The leader's entries: take them if the log holds their base entry,
    /// else reject them.
    Replicate { base_index: u64, base_term: u64 },
    /// Pass the client request on to the leader, and remember it.
    Proxy { leader: String },
    /// The client request waits until there is a leader.
    Queue,
    /// The client response goes on to the client, with this node as the
    /// status's server.
    Respond,
    /// Nothing to do.
    Nothing,
    /// A message no follower expects; it is logged.
    Unexpected,
}

/// What a follower commits on its leader's heartbeat, with its log
/// committed through `log_commit_index`: when its log holds the entry the
/// leader committed (`has_committed`) and the leader's `commit_index` is
/// past its own, the log commits through it and the entries after the old
/// commit index through it are applied. Returns the first and last index of
/// those entries, or `None` when nothing is committed.
pub fn heartbeat_commit(has_committed: bool, commit_index: u64, log_commit_index: u64) -> (r: Option<(u64, u64)>)
    ensures
        r == (if has_committed && commit_index > log_commit_index {
            Some(((log_commit_index + 1) as u64, commit_index))
        } else {
            None::<(u64, u64)>
        }),
{
    if has_committed && commit_index > log_commit_index {
        Some((log_commit_index + 1, commit_index))
    } else {
        None
    }
}

/// Whether `from` is the follower's leader.
pub open spec fn is_leader_spec(leader: Option<String>, from: Address) -> bool {
    leader is Some && from is Peer && peer_name(from) == leader->0@
}

/// Whether a candidate whose log ends at `last_index` in `last_term` is at
/// least as up to date as a log ending at `log_index` in `log_term`.
pub open spec fn up_to_date(last_index: u64, last_term: u64, log_index: u64, log_term: u64) -> bool {
    last_term > log_term || (last_term == log_term && last_index >= log_index)
}

impl Follower {
    /// Moves time forward by a tick; returns whether the leader has not been
    /// heard from for the timeout, so that the node becomes a candidate.
    pub fn tick(&mut self) -> (timed_out: bool)
        requires
            old(self).leader_seen_ticks < u64::MAX,
        ensures
            final(self).leader_seen_ticks == old(self).leader_seen_ticks + 1,
            final(self).leader_seen_timeout == old(self).leader_seen_timeout,
            final(self).leader == old(self).leader,
            final(self).voted_for == old(self).voted_for,
            timed_out == (old(self).leader_seen_ticks + 1 >= old(self).leader_seen_timeout),
    {
        self.leader_seen_ticks = self.leader_seen_ticks + 1;
        self.leader_seen_ticks >= self.leader_seen_timeout
    }

    /// A tick of the follower of a node at `term` whose log ends at
    /// `log_last_index` in `log_last_term`: the tick is counted, and when the
    /// leader has not been heard from for the timeout the node becomes a
    /// candidate, returned with its next term and the solicitation of votes
    /// to send; otherwise it stays this follower and sends nothing.
    pub fn tick_or_campaign(&mut self, term: u64, log_last_index: u64, log_last_term: u64) -> (r: Option<
        (u64, Candidate, Message),
    >)
        requires
            old(self).leader_seen_ticks < u64::MAX,
            term < u64::MAX,
        ensures
            final(self).leader_seen_ticks == old(self).leader_seen_ticks + 1,
            final(self).leader_seen_timeout == old(self).leader_seen_timeout,
            final(self).leader == old(self).leader,
            final(self).voted_for == old(self).voted_for,
            (r is Some) == (old(self).leader_seen_ticks + 1 >= old(self).leader_seen_timeout),
            r matches Some((next, c, msg)) ==> {
                &&& next == term + 1
                &&& c.votes == 1
                &&& c.election_ticks == 0
                &&& ELECTION_TIMEOUT_MIN <= c.election_timeout < ELECTION_TIMEOUT_MAX
                &&& msg.from is Local
                &&& msg.to is Peers
                &&& msg.term == term + 1
                &&& msg.event matches Event::SolicitVote { last_index, last_term } && last_index == log_last_index
                    && last_term == log_last_term
            },
    {
        if self.tick() {
            Some(campaign(term, log_last_index, log_last_term))
        } else {
            None
        }
    }

    /// Whether `from` is the leader this node follows.
    pub fn is_leader(&self, from: &Address) -> (r: bool)
        ensures
            r == is_leader_spec(self.leader, *from),
    {
        match (&self.leader, from) {
            (Some(leader), Address::Peer(from)) => *leader == *from,
            _ => false,
        }
    }

    /// Decides what the follower of node `id` at `term`, whose log ends at
    /// `log_last_index` in `log_last_term`, does with `msg`. A message from
    /// the leader resets the ticks since it was last heard from; a vote
    /// granted is recorded.
    pub fn step(&mut self, id: &String, term: u64, log_last_index: u64, log_last_term: u64, msg: &Message) -> (r:
        FollowerStep)
        ensures
            match rejection(id@, term, *msg) {
                Some(text) => r matches FollowerStep::Ignore(Error::Internal(s)) && s@ == text && *final(self)
                    == *old(self),
                None => if msg.from is Peer && (msg.term > term || old(self).leader is None) {
                    r matches FollowerStep::Follow { term: t, leader } && t == msg.term && leader@ == peer_name(
                        msg.from,
                    ) && *final(self) == *old(self)
                } else {
                    &&& final(self).leader == old(self).leader
                    &&& final(self).leader_seen_timeout == old(self).leader_seen_timeout
                    &&& final(self).leader_seen_ticks == if is_leader_spec(old(self).leader, msg.from) {
                        0
                    } else {
                        old(self).leader_seen_ticks
                    }
                    &&& !(r is Vote) ==> final(self).voted_for == old(self).voted_for
                    &&& match msg.event {
                        Event::Heartbeat { commit_index, commit_term } => if is_leader_spec(
                            old(self).leader,
                            msg.from,
                        ) {
                            r == FollowerStep::Heartbeat { commit_index, commit_term }
                        } else {
                            r is Nothing
                        },
                        Event::SolicitVote { last_index, last_term } => if msg.from is Peer && (old(
                            self,
                        ).voted_for is None || old(self).voted_for->0@ == peer_name(msg.from)) && up_to_date(
                            last_index,
                            last_term,
                            log_last_index,
                            log_last_term,
                        ) {
                            &&& r matches FollowerStep::Vote { candidate } && candidate@ == peer_name(msg.from)
                            &&& final(self).voted_for matches Some(v) && v@ == peer_name(msg.from)
                        } else {
                            r is Nothing
                        },
                        Event::ReplicateEntries { base_index, base_term, .. } => if is_leader_spec(
                            old(self).leader,
                            msg.from,
                        ) {
                            r == FollowerStep::Replicate { base_index, base_term }
                        } else {
                            r is Nothing
                        },
                        Event::ClientRequest { .. } => match old(self).leader {
                            Some(l) => r matches FollowerStep::Proxy { leader } && leader@ == l@,
                            None => r is Queue,
                        },
                        Event::ClientResponse { .. } => r is Respond,
                        Event::GrantVote => r is Nothing,
                        _ => r is Unexpected,
                    }
                },
            },
    {
        match validate(id, term, msg) {
            Err(e) => return FollowerStep::Ignore(e),
            Ok(()) => {},
        }
        if let Address::Peer(from) = &msg.from {
            if msg.term > term || self.leader.is_none() {
                return FollowerStep::Follow { term: msg.term, leader: from.clone() };
            }
        }
        let from_leader = self.is_leader(&msg.from);
        if from_leader {
            self.leader_seen_ticks = 0;
        }
        match &msg.event {
            Event::Heartbeat { commit_index, commit_term } => {
                if from_leader {
                    FollowerStep::Heartbeat { commit_index: *commit_index, commit_term: *commit_term }
                } else {
                    FollowerStep::Nothing
                }
            },
            Event::SolicitVote { last_index, last_term } => {
                let from = match &msg.from {
                    Address::Peer(from) => from,
                    _ => return FollowerStep::Nothing,
                };
                if let Some(voted_for) = &self.voted_for {
                    if *voted_for != *from {
                        return FollowerStep::Nothing;
                    }
                }
                if *last_term < log_last_term {
                    return FollowerStep::Nothing;
                }
                if *last_term == log_last_term && *last_index < log_last_index {
                    return FollowerStep::Nothing;
                }
                self.voted_for = Some(from.clone());
                FollowerStep::Vote { candidate: from.clone() }
            },
            Event::ReplicateEntries { base_index, base_term, .. } => {
                if from_leader {
                    FollowerStep::Replicate { base_index: *base_index, base_term: *base_term }
                } else {
                    FollowerStep::Nothing
                }
            },
            Event::ClientRequest { .. } => match &self.leader {
                Some(leader) => FollowerStep::Proxy { leader: leader.clone() },
                None => FollowerStep::Queue,
            },
            Event::ClientResponse { .. } => FollowerStep::Respond,
            Event::GrantVote => FollowerStep::Nothing,
            _ => FollowerStep::Unexpected,
        }
    }
}

} // verus!
