use mqtt::raft::candidate::{Candidate, CandidateStep};
use mqtt::raft::follower::{Follower, FollowerStep};
use mqtt::raft::leader::{quorum_index, Leader, LeaderStep};
use mqtt::raft::message::{Address, Error, Event, Message, Request};
use mqtt::raft::node::{quorum, validate};

fn peer(name: &str) -> Address {
    Address::Peer(name.to_string())
}

fn msg(from: Address, to: Address, term: u64, event: Event) -> Message {
    Message { from, to, term, event }
}

fn request() -> Event {
    Event::ClientRequest { id: vec![1], request: Request::Status }
}

fn internal(res: Result<(), Error>) -> String {
    match res {
        Err(Error::Internal(s)) => s,
        other => panic!("expected an internal error, got {:?}", other),
    }
}

#[test]
fn raft_quorum_sizes() {
    assert_eq!(quorum(0), 1);
    assert_eq!(quorum(1), 2);
    assert_eq!(quorum(2), 2);
    assert_eq!(quorum(3), 3);
    assert_eq!(quorum(4), 3);
    for peers in 0..20usize {
        // any two quorums share a node
        assert!(2 * quorum(peers) > peers as u64 + 1);
    }
}

#[test]
fn raft_validate_reasons() {
    let id = "a".to_string();
    let ok = msg(peer("b"), peer("a"), 2, Event::GrantVote);
    assert!(validate(&id, 2, &ok).is_ok());
    assert!(validate(&id, 2, &msg(peer("b"), Address::Peers, 3, Event::GrantVote)).is_ok());
    assert!(validate(&id, 2, &msg(Address::Client, Address::Local, 0, request())).is_ok());
    assert_eq!(
        internal(validate(&id, 2, &msg(Address::Peers, peer("a"), 2, Event::GrantVote))),
        "Message from broadcast address"
    );
    assert_eq!(
        internal(validate(&id, 2, &msg(Address::Local, peer("a"), 2, Event::GrantVote))),
        "Message from local node"
    );
    assert_eq!(
        internal(validate(&id, 2, &msg(Address::Client, peer("a"), 2, Event::GrantVote))),
        "Non-request message from client"
    );
    assert_eq!(
        internal(validate(&id, 12, &msg(peer("b"), peer("a"), 11, Event::GrantVote))),
        "Message from past term 11"
    );
    assert_eq!(
        internal(validate(&id, 2, &msg(peer("b"), peer("c"), 2, Event::GrantVote))),
        "Received message for other node c"
    );
    assert_eq!(
        internal(validate(&id, 2, &msg(peer("b"), Address::Client, 2, Event::GrantVote))),
        "Received message for client"
    );
}

#[test]
fn raft_candidate_wins_with_quorum() {
    let id = "a".to_string();
    let mut c = Candidate::new();
    // three peers: quorum of three votes, our own included
    let q = quorum(3);
    let vote = msg(peer("b"), peer("a"), 4, Event::GrantVote);
    assert!(matches!(c.step(&id, 4, q, &vote), CandidateStep::Counted));
    assert_eq!(c.votes, 2);
    assert!(matches!(c.step(&id, 4, q, &vote), CandidateStep::Elected));
    assert_eq!(c.votes, 3);
}

#[test]
fn raft_candidate_follows_and_queues() {
    let id = "a".to_string();
    let mut c = Candidate::new();
    let later = msg(peer("b"), peer("a"), 5, Event::SolicitVote { last_index: 0, last_term: 0 });
    match c.step(&id, 4, 2, &later) {
        CandidateStep::Follow { term, leader } => {
            assert_eq!(term, 5);
            assert_eq!(leader, "b");
        }
        _ => panic!("expected to follow"),
    }
    let beat = msg(peer("c"), peer("a"), 4, Event::Heartbeat { commit_index: 0, commit_term: 0 });
    assert!(matches!(c.step(&id, 4, 2, &beat), CandidateStep::Follow { term: 4, .. }));
    let req = msg(Address::Client, Address::Local, 0, request());
    assert!(matches!(c.step(&id, 4, 2, &req), CandidateStep::Queue));
    let same = msg(peer("b"), peer("a"), 4, Event::SolicitVote { last_index: 0, last_term: 0 });
    assert!(matches!(c.step(&id, 4, 2, &same), CandidateStep::Nothing));
    let odd = msg(peer("b"), peer("a"), 4, Event::RejectEntries);
    assert!(matches!(c.step(&id, 4, 2, &odd), CandidateStep::Unexpected));
    let bad = msg(peer("b"), peer("z"), 4, Event::GrantVote);
    assert!(matches!(c.step(&id, 4, 2, &bad), CandidateStep::Ignore(Error::Internal(_))));
    assert_eq!(c.votes, 1);
}

#[test]
fn raft_candidate_election_times_out() {
    let mut c = Candidate::new();
    c.votes = 2;
    c.election_ticks = c.election_timeout - 2;
    assert!(!c.tick());
    assert_eq!(c.votes, 2);
    assert!(c.tick());
    assert_eq!(c.votes, 1);
    assert_eq!(c.election_ticks, 0);
}

#[test]
fn raft_follower_votes_once_for_up_to_date_logs() {
    let id = "a".to_string();
    let mut f = Follower::new(Some("l"), None);
    // a candidate whose log is behind gets no vote
    let behind = msg(peer("b"), peer("a"), 3, Event::SolicitVote { last_index: 4, last_term: 2 });
    assert!(matches!(f.step(&id, 3, 5, 2, &behind), FollowerStep::Nothing));
    assert_eq!(f.voted_for, None);
    let older = msg(peer("b"), peer("a"), 3, Event::SolicitVote { last_index: 9, last_term: 1 });
    assert!(matches!(f.step(&id, 3, 5, 2, &older), FollowerStep::Nothing));
    // an up-to-date one gets it
    let ask = msg(peer("b"), peer("a"), 3, Event::SolicitVote { last_index: 5, last_term: 2 });
    match f.step(&id, 3, 5, 2, &ask) {
        FollowerStep::Vote { candidate } => assert_eq!(candidate, "b"),
        _ => panic!("expected a vote"),
    }
    assert_eq!(f.voted_for.as_deref(), Some("b"));
    // another candidate in the same term gets none; the same one again does
    let other = msg(peer("c"), peer("a"), 3, Event::SolicitVote { last_index: 9, last_term: 3 });
    assert!(matches!(f.step(&id, 3, 5, 2, &other), FollowerStep::Nothing));
    assert!(matches!(f.step(&id, 3, 5, 2, &ask), FollowerStep::Vote { .. }));
}

#[test]
fn raft_follower_hears_its_leader() {
    let id = "a".to_string();
    let mut f = Follower::new(Some("l"), None);
    f.leader_seen_ticks = 5;
    let beat = msg(peer("l"), peer("a"), 3, Event::Heartbeat { commit_index: 7, commit_term: 2 });
    assert_eq!(f.step(&id, 3, 0, 0, &beat), FollowerStep::Heartbeat { commit_index: 7, commit_term: 2 });
    assert_eq!(f.leader_seen_ticks, 0);
    let stranger = msg(peer("x"), peer("a"), 3, Event::Heartbeat { commit_index: 7, commit_term: 2 });
    assert!(matches!(f.step(&id, 3, 0, 0, &stranger), FollowerStep::Nothing));
    let entries = msg(peer("l"), peer("a"), 3, Event::ReplicateEntries { base_index: 4, base_term: 1, entries: vec![] });
    assert_eq!(f.step(&id, 3, 0, 0, &entries), FollowerStep::Replicate { base_index: 4, base_term: 1 });
    let req = msg(Address::Client, Address::Local, 0, request());
    match f.step(&id, 3, 0, 0, &req) {
        FollowerStep::Proxy { leader } => assert_eq!(leader, "l"),
        _ => panic!("expected to proxy"),
    }
    let later = msg(peer("m"), peer("a"), 4, Event::GrantVote);
    assert!(matches!(f.step(&id, 3, 0, 0, &later), FollowerStep::Follow { term: 4, .. }));
    let mut lost = Follower::new(None, None);
    let first = msg(peer("m"), peer("a"), 3, Event::GrantVote);
    assert!(matches!(lost.step(&id, 3, 0, 0, &first), FollowerStep::Follow { term: 3, .. }));
    assert!(matches!(lost.step(&id, 3, 0, 0, &req), FollowerStep::Queue));
}

#[test]
fn raft_follower_times_out() {
    let mut f = Follower::new(Some("l"), None);
    f.leader_seen_ticks = f.leader_seen_timeout - 2;
    assert!(!f.tick());
    assert!(f.tick());
}

#[test]
fn raft_quorum_index_examples() {
    assert_eq!(quorum_index(&vec![5, 3, 4], 2), 4);
    assert_eq!(quorum_index(&vec![5, 3, 4], 3), 3);
    assert_eq!(quorum_index(&vec![5, 3, 4], 1), 5);
    assert_eq!(quorum_index(&vec![7], 1), 7);
    assert_eq!(quorum_index(&vec![2, 9, 9, 1, 9], 3), 9);
    assert_eq!(quorum_index(&vec![2, 9, 9, 1, 9], 4), 2);
}

#[test]
fn raft_leader_tracks_peers() {
    let id = "a".to_string();
    let mut leader = Leader::new(vec!["b".to_string(), "c".to_string()], 7);
    let accept = msg(peer("b"), peer("a"), 2, Event::AcceptEntries { last_index: 9 });
    assert!(matches!(leader.step(&id, 2, &accept), LeaderStep::Accepted));
    assert_eq!(leader.peer_last_index.get("b"), Some(&9));
    assert_eq!(leader.peer_next_index.get("b"), Some(&10));
    let reject = msg(peer("c"), peer("a"), 2, Event::RejectEntries);
    match leader.step(&id, 2, &reject) {
        LeaderStep::Rejected { peer } => assert_eq!(peer, "c"),
        _ => panic!("expected a rejection"),
    }
    assert_eq!(leader.peer_next_index.get("c"), Some(&7));
    let confirm = msg(peer("c"), peer("a"), 2, Event::ConfirmLeader { commit_index: 3, has_committed: false });
    match leader.step(&id, 2, &confirm) {
        LeaderStep::Confirm { peer, commit_index, replicate } => {
            assert_eq!(peer, "c");
            assert_eq!(commit_index, 3);
            assert!(replicate);
        }
        _ => panic!("expected a confirmation"),
    }
    let query = msg(Address::Client, Address::Local, 0, Event::ClientRequest { id: vec![1], request: Request::Query(vec![]) });
    assert!(matches!(leader.step(&id, 2, &query), LeaderStep::Query));
    let later = msg(peer("c"), peer("a"), 3, Event::GrantVote);
    assert!(matches!(leader.step(&id, 2, &later), LeaderStep::Follow { term: 3, .. }));
    let beat = msg(peer("c"), peer("a"), 2, Event::Heartbeat { commit_index: 0, commit_term: 0 });
    assert!(matches!(leader.step(&id, 2, &beat), LeaderStep::Unexpected));
}

#[test]
fn raft_leader_heartbeats() {
    let mut leader = Leader::new(vec!["b".to_string()], 0);
    assert!(leader.tick(true));
    assert_eq!(leader.heartbeat_ticks, 0);
    assert!(!leader.tick(false));
}
