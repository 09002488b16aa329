//! A node campaigning to become leader.
use vstd::prelude::*;
use crate::raft::{random_in_range, ELECTION_TIMEOUT_MAX, ELECTION_TIMEOUT_MIN};
use crate::raft::message::{Address, Error, Event, Message};
use crate::raft::node::{rejection, validate};

verus! {

/// A candidate is campaigning to become a leader
#[derive(Debug)]
pub struct Candidate {
    /// Ticks elapsed since election start
    pub election_ticks: u64,
    /// Election timeout, in ticks
    pub election_timeout: u64,
    /// Votes received (including ourselves)
    pub votes: u64,
}

impl Candidate {
    /// A fresh campaign: our own vote, no ticks yet, and a timeout drawn
    /// from the election timeout range.
    pub fn new() -> (c: Self)
        ensures
            c.votes == 1,
            c.election_ticks == 0,
            ELECTION_TIMEOUT_MIN <= c.election_timeout < ELECTION_TIMEOUT_MAX,
    {
        Self {
            votes: 1,  // We always start with a vote for ourselves
            election_ticks: 0,
            election_timeout: random_in_range(ELECTION_TIMEOUT_MIN, ELECTION_TIMEOUT_MAX),
        }
    }
}

/// Starts an election after `term`, when a follower has not heard from its
/// leader or a candidate's election has timed out: returns the next term
/// (which the node saves), a fresh candidate, and the solicitation of votes
/// it sends to every peer, carrying the last index and term of its log.
pub fn campaign(term: u64, log_last_index: u64, log_last_term: u64) -> (r: (u64, Candidate, Message))
    requires
        term < u64::MAX,
    ensures
        r.0 == term + 1,
        r.1.votes == 1,
        r.1.election_ticks == 0,
        ELECTION_TIMEOUT_MIN <= r.1.election_timeout < ELECTION_TIMEOUT_MAX,
        r.2.from is Local,
        r.2.to is Peers,
        r.2.term == term + 1,
        r.2.event matches Event::SolicitVote { last_index, last_term } && last_index == log_last_index
            && last_term == log_last_term,
{
    let next = term + 1;
    let solicit = Message {
        from: Address::Local,
        to: Address::Peers,
        term: next,
        event: Event::SolicitVote { last_index: log_last_index, last_term: log_last_term },
    };
    (next, Candidate::new(), solicit)
}

/// What a candidate does with a message.
#[derive(Debug, PartialEq)]
pub enum CandidateStep {
    /// The message is invalid: it is dropped, and the reason logged.
    Ignore(Error),
    /// A peer is at a later term, or leads: follow it at the message's term
    /// and handle the message again as a follower.
    Follow { term: u64, leader: String },
    /// The vote completed a quorum: become leader, then handle the queued
    /// client requests.
    Elected,
    /// The vote was counted; there is no quorum yet.
    Counted,
    /// The client request waits until there is a leader.
    Queue,
    /// The client response goes on to the client, with this node as the
    /// status's server.
    Respond,
    /// Nothing to do: another candidate's solicitation.
    Nothing,
    /// A message no candidate expects; it is logged.
    Unexpected,
}

/// The name of a peer address.
pub open spec fn peer_name(a: Address) -> Seq<char> {
    match a {
        Address::Peer(p) => p@,
        _ => Seq::empty(),
    }
}

impl Candidate {
    /// Moves time forward by a tick: when the election times out, a new
    /// campaign starts afresh (the node then moves to the next term and
    /// solicits votes). Returns whether it timed out.
    pub fn tick(&mut self) -> (timed_out: bool)
        requires
            old(self).election_ticks < u64::MAX,
        ensures
            timed_out == (old(self).election_ticks + 1 >= old(self).election_timeout),
            timed_out ==> final(self).votes == 1 && final(self).election_ticks == 0 && ELECTION_TIMEOUT_MIN
                <= final(self).election_timeout < ELECTION_TIMEOUT_MAX,
            !timed_out ==> final(self).election_ticks == old(self).election_ticks + 1 && final(self).votes
                == old(self).votes && final(self).election_timeout == old(self).election_timeout,
    {
        self.election_ticks = self.election_ticks + 1;
        if self.election_ticks >= self.election_timeout {
            *self = Candidate::new();
            true
        } else {
            false
        }
    }

    /// Decides what the candidate of node `id`, campaigning in `term` for a
    /// cluster with quorum `quorum`, does with `msg`. A vote is counted
    /// here; the candidate wins when the votes reach the quorum.
    pub fn step(&mut self, id: &String, term: u64, quorum: u64, msg: &Message) -> (r: CandidateStep)
        requires
            old(self).votes < u64::MAX,
        ensures
            match rejection(id@, term, *msg) {
                Some(text) => r matches CandidateStep::Ignore(Error::Internal(s)) && s@ == text,
                None => if msg.from is Peer && (msg.term > term || msg.event is Heartbeat) {
                    r matches CandidateStep::Follow { term: t, leader } && t == msg.term && leader@ == peer_name(
                        msg.from,
                    )
                } else {
                    match msg.event {
                        Event::GrantVote => final(self).votes == old(self).votes + 1 && (if old(self).votes + 1
                            >= quorum {
                            r is Elected
                        } else {
                            r is Counted
                        }),
                        Event::ClientRequest { .. } => r is Queue,
                        Event::ClientResponse { .. } => r is Respond,
                        Event::SolicitVote { .. } => r is Nothing,
                        Event::Heartbeat { .. } => r is Nothing,
                        _ => r is Unexpected,
                    }
                },
            },
            final(self).election_ticks == old(self).election_ticks,
            final(self).election_timeout == old(self).election_timeout,
            !(r is Elected || r is Counted) ==> final(self).votes == old(self).votes,
    {
        match validate(id, term, msg) {
            Err(e) => return CandidateStep::Ignore(e),
            Ok(()) => {},
        }
        if let Address::Peer(from) = &msg.from {
            if msg.term > term || matches!(msg.event, Event::Heartbeat { .. }) {
                return CandidateStep::Follow { term: msg.term, leader: from.clone() };
            }
        }
        match &msg.event {
            Event::GrantVote => {
                self.votes = self.votes + 1;
                if self.votes >= quorum {
                    CandidateStep::Elected
                } else {
                    CandidateStep::Counted
                }
            },
            Event::ClientRequest { .. } => CandidateStep::Queue,
            Event::ClientResponse { .. } => CandidateStep::Respond,
            Event::SolicitVote { .. } => CandidateStep::Nothing,
            Event::Heartbeat { .. } => CandidateStep::Nothing,
            _ => CandidateStep::Unexpected,
        }
    }
}

} // verus!
