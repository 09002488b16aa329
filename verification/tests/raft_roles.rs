use mqtt::raft::candidate::Candidate;
use mqtt::raft::follower::{heartbeat_commit, Follower};
use mqtt::raft::leader::commit_range;
use mqtt::raft::message::Error;
use mqtt::raft::node::{node_start, quorum, StartRole};
use mqtt::raft::leader::Leader;
use mqtt::raft::state::Instruction;
use mqtt::raft::{ELECTION_TIMEOUT_MAX, ELECTION_TIMEOUT_MIN, HEARTBEAT_INTERVAL};

#[test]
fn raft_candidate_starts_with_own_vote() {
    for _ in 0..50 {
        let c = Candidate::new();
        assert_eq!(c.votes, 1);
        assert_eq!(c.election_ticks, 0);
        assert!(ELECTION_TIMEOUT_MIN <= c.election_timeout && c.election_timeout < ELECTION_TIMEOUT_MAX);
    }
}

#[test]
fn raft_follower_keeps_names() {
    let f = Follower::new(Some("a"), None);
    assert_eq!(f.leader.as_deref(), Some("a"));
    assert_eq!(f.voted_for, None);
    assert_eq!(f.leader_seen_ticks, 0);
    assert!(ELECTION_TIMEOUT_MIN <= f.leader_seen_timeout && f.leader_seen_timeout < ELECTION_TIMEOUT_MAX);
    let g = Follower::new(None, Some("b"));
    assert_eq!(g.leader, None);
    assert_eq!(g.voted_for.as_deref(), Some("b"));
}

#[test]
fn raft_leader_indexes_every_peer() {
    let leader = Leader::new(vec!["a".to_string(), "b".to_string()], 7);
    assert_eq!(leader.heartbeat_ticks, 0);
    assert_eq!(leader.peer_next_index.get("a"), Some(&8));
    assert_eq!(leader.peer_next_index.get("b"), Some(&8));
    assert_eq!(leader.peer_last_index.get("a"), Some(&0));
    assert_eq!(leader.peer_last_index.get("c"), None);
    assert_eq!(leader.peer_next_index.len(), 2);
    let alone = Leader::new(vec![], 0);
    assert_eq!(alone.peer_next_index.len(), 0);
}

#[test]
fn raft_timeouts() {
    assert_eq!(HEARTBEAT_INTERVAL, 1);
    assert_eq!(ELECTION_TIMEOUT_MIN, 8 * HEARTBEAT_INTERVAL);
    assert_eq!(ELECTION_TIMEOUT_MAX, 15 * HEARTBEAT_INTERVAL);
}

#[test]
fn raft_campaign_moves_to_the_next_term() {
    let (term, c, msg) = mqtt::raft::candidate::campaign(3, 17, 2);
    assert_eq!(term, 4);
    assert_eq!(c.votes, 1);
    assert_eq!(c.election_ticks, 0);
    assert!(ELECTION_TIMEOUT_MIN <= c.election_timeout && c.election_timeout < ELECTION_TIMEOUT_MAX);
    assert_eq!(msg.from, mqtt::raft::message::Address::Local);
    assert_eq!(msg.to, mqtt::raft::message::Address::Peers);
    assert_eq!(msg.term, 4);
    assert_eq!(msg.event, mqtt::raft::message::Event::SolicitVote { last_index: 17, last_term: 2 });
}

#[test]
fn raft_follower_times_out_into_a_campaign() {
    let mut f = Follower::new(Some("a"), None);
    f.leader_seen_timeout = 2;
    assert!(f.tick_or_campaign(7, 11, 6).is_none());
    assert_eq!(f.leader_seen_ticks, 1);
    let (term, c, msg) = f.tick_or_campaign(7, 11, 6).unwrap();
    assert_eq!(term, 8);
    assert_eq!(c.votes, 1);
    assert_eq!(msg.term, 8);
    assert_eq!(msg.to, mqtt::raft::message::Address::Peers);
    assert_eq!(msg.event, mqtt::raft::message::Event::SolicitVote { last_index: 11, last_term: 6 });
}

#[test]
fn raft_leader_commits_only_entries_of_its_term() {
    assert_eq!(commit_range(3, 6, Some(2), 2), Some((4, 6)));
    assert_eq!(commit_range(3, 6, Some(1), 2), None);
    assert_eq!(commit_range(3, 6, None, 2), None);
    assert_eq!(commit_range(6, 6, Some(2), 2), None);
    assert_eq!(commit_range(7, 6, Some(2), 2), None);
}

#[test]
fn raft_follower_commits_on_heartbeat() {
    assert_eq!(heartbeat_commit(true, 9, 4), Some((5, 9)));
    assert_eq!(heartbeat_commit(false, 9, 4), None);
    assert_eq!(heartbeat_commit(true, 4, 4), None);
}

#[test]
fn raft_node_start_checks_the_applied_index() {
    match node_start(12, 3, 2, 5, None, 9) {
        Err(e) => assert_eq!(
            e,
            Error::Internal("State machine applied index 12 greater than log committed index 3".to_string())
        ),
        Ok(_) => panic!("expected an error"),
    }
    let st = node_start(3, 3, 2, 5, Some("b"), 9).unwrap();
    assert_eq!(st.replay, None);
    assert_eq!(st.term, 5);
    match st.role {
        StartRole::Follower(f) => {
            assert_eq!(f.leader, None);
            assert_eq!(f.voted_for.as_deref(), Some("b"));
            assert_eq!(f.leader_seen_ticks, 0);
        },
        StartRole::Leader(_) => panic!("expected a follower"),
    }
    let st = node_start(1, 3, 0, 2, None, 9).unwrap();
    assert_eq!(st.replay, Some((2, 3)));
    assert_eq!(st.term, 2);
    match st.role {
        StartRole::Leader(l) => assert_eq!(l.heartbeat_ticks, 0),
        StartRole::Follower(_) => panic!("expected a leader"),
    }
}

#[test]
fn raft_quorum_is_the_smallest_majority() {
    for peers in 0usize..20 {
        let q = quorum(peers) as usize;
        let n = peers + 1;
        assert!(2 * q > n && 2 * (q - 1) <= n && 1 <= q && q <= n);
    }
    assert_eq!(quorum(0), 1);
    assert_eq!(quorum(2), 2);
    assert_eq!(quorum(4), 3);
}

#[test]
fn raft_leader_query_instructions() {
    let (query, vote, heartbeat) =
        mqtt::raft::leader::leader_query(vec![4], mqtt::raft::message::Address::Client, vec![7], 3, 10, 2, 2, true);
    match query {
        Instruction::Query { id, address, command, term, index, quorum } => {
            assert_eq!((id, address, command, term, index, quorum), (vec![4], mqtt::raft::message::Address::Client, vec![7], 3, 10, 2));
        },
        other => panic!("expected a query, got {:?}", other),
    }
    match vote {
        Instruction::Vote { term, index, address } => assert_eq!((term, index, address), (3, 10, mqtt::raft::message::Address::Local)),
        other => panic!("expected a vote, got {:?}", other),
    }
    let m = heartbeat.unwrap();
    assert_eq!(m.event, mqtt::raft::message::Event::Heartbeat { commit_index: 10, commit_term: 2 });
    assert_eq!((m.to, m.term), (mqtt::raft::message::Address::Peers, 3));
    let (_, _, heartbeat) =
        mqtt::raft::leader::leader_query(vec![4], mqtt::raft::message::Address::Client, vec![7], 3, 10, 2, 1, false);
    assert!(heartbeat.is_none());
    match mqtt::raft::leader::confirm_vote(3, 8, mqtt::raft::message::Address::Peer("b".to_string())) {
        Instruction::Vote { term, index, address } => {
            assert_eq!((term, index, address), (3, 8, mqtt::raft::message::Address::Peer("b".to_string())))
        },
        other => panic!("expected a vote, got {:?}", other),
    }
}
