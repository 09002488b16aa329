use std::collections::HashMap;
use mqtt::raft::message::{Address, Entry, Error, Event, Message, Response};
use mqtt::raft::state::{answer_query, Driver, Instruction, State};
use mqtt::raft::Status;

/// A counter: mutations add their first byte, queries read it.
struct Counter {
    applied: u64,
    total: u8,
}

impl State for Counter {
    fn applied_index(&self) -> u64 {
        self.applied
    }

    fn mutate(&mut self, index: u64, command: Vec<u8>) -> Result<Vec<u8>, Error> {
        if command.is_empty() {
            return Err(Error::Internal("empty command".to_string()));
        }
        self.applied = index;
        self.total = self.total.wrapping_add(command[0]);
        Ok(vec![self.total])
    }

    fn query(&self, _command: Vec<u8>) -> Result<Vec<u8>, Error> {
        Ok(vec![self.total])
    }
}

fn client_response(m: &Message) -> (&Address, &Vec<u8>, &Result<Response, Error>) {
    assert_eq!(m.from, Address::Local);
    assert_eq!(m.term, 0);
    match &m.event {
        Event::ClientResponse { id, response } => (&m.to, id, response),
        other => panic!("expected a client response, got {:?}", other),
    }
}

fn entry(index: u64, command: Option<Vec<u8>>) -> Entry {
    Entry { index, term: 1, command }
}

#[test]
fn raft_driver_notifies_when_applied() {
    let mut driver = Driver::new();
    let mut state = Counter { applied: 0, total: 0 };
    let (out, res) = driver.execute(Instruction::Notify { id: vec![7], address: Address::Client, index: 1 }, &mut state);
    assert!(res.is_ok());
    assert!(out.is_empty());
    let (out, res) = driver.execute(Instruction::Apply { entry: entry(1, Some(vec![5])) }, &mut state);
    assert!(res.is_ok());
    assert_eq!(out.len(), 1);
    let (to, id, response) = client_response(&out[0]);
    assert_eq!(to, &Address::Client);
    assert_eq!(id, &vec![7]);
    assert_eq!(response, &Ok(Response::State(vec![5])));
    // a notice for an index already applied is aborted at once
    let (out, _) = driver.execute(Instruction::Notify { id: vec![8], address: Address::Client, index: 1 }, &mut state);
    assert_eq!(out.len(), 1);
    assert_eq!(client_response(&out[0]).2, &Err(Error::Abort));
}

#[test]
fn raft_driver_runs_queries_with_a_quorum_in_order() {
    let mut driver = Driver::new();
    let mut state = Counter { applied: 0, total: 3 };
    let query = |id: u8| Instruction::Query {
        id: vec![id],
        address: Address::Peer(format!("c{}", id)),
        command: vec![],
        term: 1,
        index: 1,
        quorum: 2,
    };
    assert!(driver.execute(query(2), &mut state).0.is_empty());
    assert!(driver.execute(query(1), &mut state).0.is_empty());
    // applied, but no votes yet
    let (out, _) = driver.execute(Instruction::Apply { entry: entry(1, None) }, &mut state);
    assert!(out.is_empty());
    // one vote is not a quorum; the same voter twice still counts once
    let vote = |address: Address| Instruction::Vote { term: 1, index: 1, address };
    assert!(driver.execute(vote(Address::Local), &mut state).0.is_empty());
    assert!(driver.execute(vote(Address::Local), &mut state).0.is_empty());
    // a vote from an earlier term does not count
    let (out, _) = driver.execute(Instruction::Vote { term: 0, index: 1, address: Address::Peer("b".to_string()) }, &mut state);
    assert!(out.is_empty());
    let (out, res) = driver.execute(vote(Address::Peer("b".to_string())), &mut state);
    assert!(res.is_ok());
    assert_eq!(out.len(), 2);
    let first = client_response(&out[0]);
    let second = client_response(&out[1]);
    assert_eq!(first.1, &vec![1]);
    assert_eq!(first.0, &Address::Peer("c1".to_string()));
    assert_eq!(second.1, &vec![2]);
    assert_eq!(first.2, &Ok(Response::State(vec![3])));
    // they are gone
    assert!(driver.execute(vote(Address::Peer("d".to_string())), &mut state).0.is_empty());
}

#[test]
fn raft_driver_aborts_everything() {
    let mut driver = Driver::new();
    let mut state = Counter { applied: 0, total: 0 };
    driver.execute(Instruction::Notify { id: vec![1], address: Address::Client, index: 5 }, &mut state);
    driver.execute(Instruction::Notify { id: vec![2], address: Address::Client, index: 6 }, &mut state);
    driver.execute(
        Instruction::Query { id: vec![3], address: Address::Client, command: vec![], term: 1, index: 9, quorum: 1 },
        &mut state,
    );
    let (out, res) = driver.execute(Instruction::Abort, &mut state);
    assert!(res.is_ok());
    assert_eq!(out.len(), 3);
    let mut ids: Vec<Vec<u8>> = out[..2].iter().map(|m| client_response(m).1.clone()).collect();
    ids.sort();
    assert_eq!(ids, vec![vec![1], vec![2]]);
    assert_eq!(client_response(&out[2]).1, &vec![3]);
    for m in &out {
        assert_eq!(client_response(m).2, &Err(Error::Abort));
    }
    assert!(driver.execute(Instruction::Abort, &mut state).0.is_empty());
}

#[test]
fn raft_driver_status_and_internal_errors() {
    let mut driver = Driver::new();
    let mut state = Counter { applied: 4, total: 0 };
    let status = Status {
        server: "a".to_string(),
        leader: "a".to_string(),
        term: 2,
        node_last_index: HashMap::new(),
        commit_index: 4,
        apply_index: 0,
        storage: "memory".to_string(),
        storage_size: 0,
    };
    let (out, _) = driver.execute(Instruction::Status { id: vec![9], address: Address::Client, status: Box::new(status) }, &mut state);
    match client_response(&out[0]).2 {
        Ok(Response::Status(s)) => assert_eq!(s.apply_index, 4),
        other => panic!("expected a status, got {:?}", other),
    }
    let (out, res) = driver.execute(Instruction::Apply { entry: entry(5, Some(vec![])) }, &mut state);
    assert!(out.is_empty());
    assert!(matches!(res, Err(Error::Internal(_))));
}

#[test]
fn raft_driver_replays() {
    let mut driver = Driver::new();
    let mut state = Counter { applied: 0, total: 0 };
    let entries = vec![entry(1, Some(vec![1])), entry(2, None), entry(3, Some(vec![2]))];
    assert!(driver.replay(&mut state, entries).is_ok());
    assert_eq!(state.total, 3);
    let bad = vec![entry(4, Some(vec![1])), entry(5, Some(vec![]))];
    assert!(matches!(driver.replay(&mut state, bad), Err(Error::Internal(_))));
    assert_eq!(state.total, 4);
}

#[test]
fn raft_driver_refused_command_leaves_the_entry_unapplied() {
    let mut driver = Driver::new();
    let mut state = Counter { applied: 4, total: 0 };
    let (out, res) = driver.execute(Instruction::Notify { id: vec![3], address: Address::Client, index: 5 }, &mut state);
    assert!(res.is_ok() && out.is_empty());
    // the state machine refuses the command: nothing is answered, the notice stays
    let (out, res) = driver.execute(Instruction::Apply { entry: entry(5, Some(vec![])) }, &mut state);
    assert!(out.is_empty());
    assert!(matches!(res, Err(Error::Internal(_))));
    let (out, res) = driver.execute(Instruction::Apply { entry: entry(5, Some(vec![2])) }, &mut state);
    assert!(res.is_ok());
    assert_eq!(out.len(), 1);
    let (_, id, response) = client_response(&out[0]);
    assert_eq!(id, &vec![3]);
    assert_eq!(response, &Ok(Response::State(vec![2])));
}

#[test]
fn raft_driver_answers_with_the_outcome() {
    let mut driver = Driver::new();
    let mut state = Counter { applied: 0, total: 0 };
    driver.execute(Instruction::Notify { id: vec![1], address: Address::Client, index: 3 }, &mut state);
    // an internal error changes nothing
    assert_eq!(driver.apply_outcome(3, Some(Err(Error::Internal("x".to_string())))), Err(Error::Internal("x".to_string())));
    // another error is the client's answer
    let m = driver.apply_outcome(3, Some(Err(Error::Abort))).unwrap().unwrap();
    let (to, id, response) = client_response(&m);
    assert_eq!((to, id), (&Address::Client, &vec![1]));
    assert_eq!(response, &Err(Error::Abort));
    // the notice is gone, and an entry without a command answers nobody
    assert!(driver.apply_outcome(3, Some(Ok(vec![4]))).unwrap().is_none());
    assert!(driver.apply_outcome(4, None).unwrap().is_none());
}

#[test]
fn raft_query_answers() {
    assert_eq!(answer_query(Address::Client, vec![2], Err(Error::Internal("y".to_string()))), Err(Error::Internal("y".to_string())));
    let m = answer_query(Address::Client, vec![2], Ok(vec![9])).unwrap();
    let (_, id, response) = client_response(&m);
    assert_eq!(id, &vec![2]);
    assert_eq!(response, &Ok(Response::State(vec![9])));
}
