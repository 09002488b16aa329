//! The state machine a Raft node drives, and the bookkeeping of the driver
//! that feeds it: the clients to notify when their mutation is applied, and
//! the queries waiting for their index to be applied and for a quorum of
//! votes.
use vstd::prelude::*;
use std::collections::HashMap;
use vstd::std_specs::iter::IteratorSpec;
use crate::raft::Status;
use crate::raft::message::{copy_address, same_address, Address, Entry, Error, Event, Message, Response};

verus! {

/// Whether `a` comes before `b` byte by byte, a proper prefix first: the
/// order of `Vec<u8>`.
pub open spec fn lex_lt(a: Seq<u8>, b: Seq<u8>) -> bool
    decreases a.len(),
{
    if a.len() == 0 {
        b.len() > 0
    } else if b.len() == 0 {
        false
    } else if a[0] != b[0] {
        a[0] < b[0]
    } else {
        lex_lt(a.drop_first(), b.drop_first())
    }
}

/// The byte order is strict and total.
pub proof fn lemma_lex_total(a: Seq<u8>, b: Seq<u8>)
    ensures
        a == b || lex_lt(a, b) || lex_lt(b, a),
        !(lex_lt(a, b) && lex_lt(b, a)),
        !lex_lt(a, a),
    decreases a.len(),
{
    if a.len() == 0 && b.len() == 0 {
        assert(a =~= b);
    } else if a.len() > 0 && b.len() > 0 && a[0] == b[0] {
        lemma_lex_total(a.drop_first(), b.drop_first());
        if a.drop_first() == b.drop_first() {
            assert forall|i: int| 0 <= i < a.len() implies a[i] == b[i] by {
                if i > 0 {
                    assert(a[i] == a.drop_first()[i - 1]);
                    assert(b[i] == b.drop_first()[i - 1]);
                }
            }
            assert(a =~= b);
        }
    }
    if a.len() > 0 {
        lemma_lex_total(a.drop_first(), a.drop_first());
    }
}

/// The byte order is transitive.
pub proof fn lemma_lex_trans(a: Seq<u8>, b: Seq<u8>, c: Seq<u8>)
    requires
        lex_lt(a, b),
        lex_lt(b, c),
    ensures
        lex_lt(a, c),
    decreases a.len(),
{
    if a.len() > 0 && b.len() > 0 && c.len() > 0 && a[0] == b[0] && b[0] == c[0] {
        lemma_lex_trans(a.drop_first(), b.drop_first(), c.drop_first());
    }
}

/// Whether id `a` comes before id `b`.
pub fn id_less(a: &Vec<u8>, b: &Vec<u8>) -> (r: bool)
    ensures
        r == lex_lt(a@, b@),
{
    let mut i: usize = 0;
    assert(a@.skip(0) =~= a@);
    assert(b@.skip(0) =~= b@);
    while i < a.len() && i < b.len()
        invariant
            i <= a.len(),
            i <= b.len(),
            lex_lt(a@, b@) == lex_lt(a@.skip(i as int), b@.skip(i as int)),
        decreases a.len() - i,
    {
        if a[i] != b[i] {
            return a[i] < b[i];
        }
        proof {
            assert(a@.skip(i as int).drop_first() =~= a@.skip(i + 1));
            assert(b@.skip(i as int).drop_first() =~= b@.skip(i + 1));
        }
        i = i + 1;
    }
    i < b.len()
}

/// A query waiting for its index to be applied and for a quorum of votes.
#[derive(Debug)]
pub struct PendingQuery {
    /// The commit index the query waits for.
    pub index: u64,
    pub id: Vec<u8>,
    pub term: u64,
    pub address: Address,
    pub command: Vec<u8>,
    pub quorum: u64,
    /// The addresses that voted for it, none twice.
    pub votes: Vec<Address>,
}

/// A pending query: its index, id, term, address, command, quorum and
/// voters.
pub type QueryView = (u64, Seq<u8>, u64, (u8, Seq<char>), Seq<u8>, u64, Seq<(u8, Seq<char>)>);

impl View for PendingQuery {
    type V = QueryView;

    open spec fn view(&self) -> QueryView {
        (
            self.index,
            self.id@,
            self.term,
            self.address@,
            self.command@,
            self.quorum,
            self.votes@.map_values(|a: Address| a@),
        )
    }
}

/// Whether query `a` is kept before query `b`: by index, then by id.
pub open spec fn query_before(a: QueryView, b: QueryView) -> bool {
    a.0 < b.0 || (a.0 == b.0 && lex_lt(a.1, b.1))
}

/// Whether two queries are filed under the same index and id.
pub open spec fn same_key(a: QueryView, b: QueryView) -> bool {
    a.0 == b.0 && a.1 == b.1
}

/// Queries in order of index and id, none filed twice, each with no voter
/// twice.
pub open spec fn queries_wf(qs: Seq<QueryView>) -> bool {
    &&& forall|i: int, j: int| 0 <= i < j < qs.len() ==> query_before(#[trigger] qs[i], #[trigger] qs[j])
    &&& forall|i: int| 0 <= i < qs.len() ==> (#[trigger] qs[i]).6.no_duplicates()
}

/// The views of `qs`.
pub open spec fn query_views(qs: Seq<PendingQuery>) -> Seq<QueryView> {
    qs.map_values(|q: PendingQuery| q@)
}

/// Whether query `q` is ready once `applied` is applied: its index is, and
/// it has a quorum of votes.
pub open spec fn is_ready(q: QueryView, applied: u64) -> bool {
    q.0 <= applied && q.6.len() >= q.5
}

/// The queries of `qs` that are ready, in their order.
pub open spec fn ready_part(qs: Seq<QueryView>, applied: u64) -> Seq<QueryView>
    decreases qs.len(),
{
    if qs.len() == 0 {
        Seq::empty()
    } else if is_ready(qs.last(), applied) {
        ready_part(qs.drop_last(), applied).push(qs.last())
    } else {
        ready_part(qs.drop_last(), applied)
    }
}

/// The queries of `qs` that still wait, in their order.
pub open spec fn waiting_part(qs: Seq<QueryView>, applied: u64) -> Seq<QueryView>
    decreases qs.len(),
{
    if qs.len() == 0 {
        Seq::empty()
    } else if is_ready(qs.last(), applied) {
        waiting_part(qs.drop_last(), applied)
    } else {
        waiting_part(qs.drop_last(), applied).push(qs.last())
    }
}

/// Query `q` after a vote by `voter` at `term` for the commit index
/// `commit_index`: a query up to that index, from that term or before,
/// counts the voter once.
pub open spec fn voted(q: QueryView, term: u64, commit_index: u64, voter: (u8, Seq<char>)) -> QueryView {
    if q.0 <= commit_index && term >= q.2 && !q.6.contains(voter) {
        (q.0, q.1, q.2, q.3, q.4, q.5, q.6.push(voter))
    } else {
        q
    }
}

proof fn lemma_waiting_within(qs: Seq<QueryView>, applied: u64, x: QueryView)
    requires
        waiting_part(qs, applied).contains(x),
    ensures
        qs.contains(x),
    decreases qs.len(),
{
    if qs.len() > 0 {
        let w = waiting_part(qs.drop_last(), applied);
        if w.contains(x) {
            lemma_waiting_within(qs.drop_last(), applied, x);
            let k = choose|k: int| 0 <= k < qs.drop_last().len() && qs.drop_last()[k] == x;
            assert(qs[k] == x);
        } else {
            assert(x == qs.last());
            assert(qs[qs.len() - 1] == x);
        }
    }
}

/// The queries left waiting keep the order and the voters of well-formed
/// queries.
proof fn lemma_waiting_wf(qs: Seq<QueryView>, applied: u64)
    requires
        queries_wf(qs),
    ensures
        queries_wf(waiting_part(qs, applied)),
    decreases qs.len(),
{
    if qs.len() > 0 {
        let d = qs.drop_last();
        assert(queries_wf(d)) by {
            assert forall|i: int, j: int| 0 <= i < j < d.len() implies query_before(#[trigger] d[i], #[trigger] d[j]) by {
                assert(d[i] == qs[i] && d[j] == qs[j]);
            }
            assert forall|i: int| 0 <= i < d.len() implies (#[trigger] d[i]).6.no_duplicates() by {
                assert(d[i] == qs[i]);
            }
        }
        lemma_waiting_wf(d, applied);
        let w = waiting_part(d, applied);
        if !is_ready(qs.last(), applied) {
            let w2 = w.push(qs.last());
            assert forall|i: int, j: int| 0 <= i < j < w2.len() implies query_before(#[trigger] w2[i], #[trigger] w2[j]) by {
                if j == w.len() {
                    assert(w.contains(w[i]));
                    lemma_waiting_within(d, applied, w[i]);
                    let k = choose|k: int| 0 <= k < d.len() && d[k] == w[i];
                    assert(qs[k] == w[i]);
                    assert(query_before(qs[k], qs[qs.len() - 1]));
                } else {
                    assert(w2[i] == w[i] && w2[j] == w[j]);
                }
            }
            assert forall|i: int| 0 <= i < w2.len() implies (#[trigger] w2[i]).6.no_duplicates() by {
                if i < w.len() {
                    assert(w2[i] == w[i]);
                } else {
                    assert(qs[qs.len() - 1] == w2[i]);
                }
            }
        }
    }
}

/// Whether `votes` holds `voter`.
fn has_voter(votes: &Vec<Address>, voter: &Address) -> (r: bool)
    ensures
        r == votes@.map_values(|a: Address| a@).contains(voter@),
{
    let ghost views = votes@.map_values(|a: Address| a@);
    let mut i: usize = 0;
    while i < votes.len()
        invariant
            i <= votes.len(),
            views == votes@.map_values(|a: Address| a@),
            forall|k: int| 0 <= k < i ==> views[k] != voter@,
        decreases votes.len() - i,
    {
        if same_address(&votes[i], voter) {
            proof {
                assert(views[i as int] == voter@);
            }
            return true;
        }
        i = i + 1;
    }
    false
}

proof fn lemma_before_total(a: QueryView, b: QueryView)
    ensures
        same_key(a, b) || query_before(a, b) || query_before(b, a),
        !(query_before(a, b) && query_before(b, a)),
        same_key(a, b) ==> !query_before(a, b),
{
    lemma_lex_total(a.1, b.1);
}

proof fn lemma_before_trans(a: QueryView, b: QueryView, c: QueryView)
    requires
        query_before(a, b),
        query_before(b, c),
    ensures
        query_before(a, c),
{
    if a.0 == b.0 && b.0 == c.0 {
        lemma_lex_trans(a.1, b.1, c.1);
    }
}

/// Whether pending query `a` is kept before `b`.
fn before(a: &PendingQuery, b: &PendingQuery) -> (r: bool)
    ensures
        r == query_before(a@, b@),
{
    a.index < b.index || (a.index == b.index && id_less(&a.id, &b.id))
}

/// Files `q` among the pending queries in order, in place of one filed
/// under the same index and id.
fn file_query(queries: &mut Vec<PendingQuery>, q: PendingQuery)
    requires
        queries_wf(query_views(old(queries)@)),
        q@.6.no_duplicates(),
    ensures
        queries_wf(query_views(final(queries)@)),
        forall|x: QueryView|
            #[trigger] query_views(final(queries)@).contains(x) <==> (x == q@ || (query_views(
                old(queries)@,
            ).contains(x) && !same_key(x, q@))),
{
    let ghost old_v = query_views(queries@);
    let ghost qv = q@;
    let mut i: usize = 0;
    while i < queries.len() && before(&queries[i], &q)
        invariant
            i <= queries.len(),
            queries@ == old(queries)@,
            old_v == query_views(queries@),
            qv == q@,
            forall|k: int| 0 <= k < i ==> query_before(#[trigger] old_v[k], qv),
        decreases queries.len() - i,
    {
        i = i + 1;
    }
    assert(queries_wf(old_v));
    if i < queries.len() && queries[i].index == q.index && !id_less(&queries[i].id, &q.id) && !id_less(&q.id, &queries[i].id) {
        proof {
            lemma_lex_total(old_v[i as int].1, qv.1);
            assert(same_key(old_v[i as int], qv));
        }
        queries.remove(i);
        queries.insert(i, q);
        proof {
            let nv = query_views(queries@);
            assert(nv =~= old_v.update(i as int, qv));
            assert forall|a: int, b: int| 0 <= a < b < nv.len() implies query_before(#[trigger] nv[a], #[trigger] nv[b]) by {
                if b == i {
                    assert(query_before(old_v[a], qv));
                } else if a == i {
                    assert(query_before(old_v[i as int], old_v[b]));
                }
            }
            assert forall|x: QueryView| nv.contains(x) <==> (x == qv || (old_v.contains(x) && !same_key(x, qv))) by {
                if nv.contains(x) && x != qv {
                    let k = choose|k: int| 0 <= k < nv.len() && nv[k] == x;
                    assert(k != i);
                    assert(old_v[k] == x);
                    if k < i {
                        lemma_before_total(x, qv);
                    } else {
                        assert(query_before(old_v[i as int], old_v[k]));
                        lemma_before_total(old_v[i as int], x);
                    }
                }
                if x == qv {
                    assert(nv[i as int] == x);
                }
                if old_v.contains(x) && !same_key(x, qv) {
                    let k = choose|k: int| 0 <= k < old_v.len() && old_v[k] == x;
                    assert(k != i);
                    assert(nv[k] == x);
                }
            }
        }
    } else {
        proof {
            if i < queries.len() {
                lemma_before_total(old_v[i as int], qv);
            }
        }
        queries.insert(i, q);
        proof {
            let nv = query_views(queries@);
            assert(nv =~= old_v.insert(i as int, qv));
            assert forall|k: int| i <= k < old_v.len() implies query_before(qv, #[trigger] old_v[k]) by {
                if k > i {
                    lemma_before_trans(qv, old_v[i as int], old_v[k]);
                }
            }
            assert forall|a: int, b: int| 0 <= a < b < nv.len() implies query_before(#[trigger] nv[a], #[trigger] nv[b]) by {
                if b == i {
                    assert(nv[a] == old_v[a]);
                } else if a == i {
                    assert(nv[b] == old_v[b - 1]);
                } else if b < i {
                    assert(nv[a] == old_v[a] && nv[b] == old_v[b]);
                } else if a < i {
                    assert(nv[a] == old_v[a] && nv[b] == old_v[b - 1]);
                    lemma_before_trans(old_v[a], qv, old_v[b - 1]);
                } else {
                    assert(nv[a] == old_v[a - 1] && nv[b] == old_v[b - 1]);
                }
            }
            assert forall|k: int| 0 <= k < nv.len() implies (#[trigger] nv[k]).6.no_duplicates() by {
                if k < i {
                    assert(nv[k] == old_v[k]);
                } else if k > i {
                    assert(nv[k] == old_v[k - 1]);
                }
            }
            assert forall|x: QueryView| nv.contains(x) <==> (x == qv || (old_v.contains(x) && !same_key(x, qv))) by {
                if nv.contains(x) && x != qv {
                    let k = choose|k: int| 0 <= k < nv.len() && nv[k] == x;
                    if k < i {
                        assert(old_v[k] == x);
                        lemma_before_total(x, qv);
                    } else {
                        assert(k > i);
                        assert(old_v[k - 1] == x);
                        lemma_before_total(qv, x);
                    }
                }
                if x == qv {
                    assert(nv[i as int] == x);
                }
                if old_v.contains(x) && !same_key(x, qv) {
                    let k = choose|k: int| 0 <= k < old_v.len() && old_v[k] == x;
                    if k < i {
                        assert(nv[k] == x);
                    } else {
                        assert(nv[k + 1] == x);
                    }
                }
            }
        }
    }
}

/// Counts the vote of `voter` at `term` for the commit index
/// `commit_index` on every pending query up to that index from that term
/// or before.
fn vote_queries(queries: &mut Vec<PendingQuery>, term: u64, commit_index: u64, voter: &Address)
    requires
        queries_wf(query_views(old(queries)@)),
    ensures
        queries_wf(query_views(final(queries)@)),
        query_views(final(queries)@) == Seq::new(
            old(queries)@.len(),
            |k: int| voted(query_views(old(queries)@)[k], term, commit_index, voter@),
        ),
{
    let ghost old_v = query_views(queries@);
    let ghost target = Seq::new(old_v.len(), |k: int| voted(old_v[k], term, commit_index, voter@));
    let mut i: usize = 0;
    while i < queries.len()
        invariant
            i <= queries.len(),
            queries@.len() == old_v.len(),
            queries_wf(old_v),
            target == Seq::new(old_v.len(), |k: int| voted(old_v[k], term, commit_index, voter@)),
            forall|k: int| 0 <= k < i ==> (#[trigger] query_views(queries@)[k]) == target[k],
            forall|k: int| i <= k < queries@.len() ==> (#[trigger] query_views(queries@)[k]) == old_v[k],
        decreases queries.len() - i,
    {
        let ghost before_q = queries@;
        proof {
            assert(query_views(before_q)[i as int] == before_q[i as int]@);
            assert(before_q[i as int]@ == old_v[i as int]);
        }
        if queries[i].index <= commit_index && term >= queries[i].term && !has_voter(&queries[i].votes, voter) {
            let a = copy_address(voter);
            queries[i].votes.push(a);
            proof {
                let nq = queries@;
                assert(nq == before_q.update(i as int, nq[i as int]));
                assert(nq[i as int].votes@ == before_q[i as int].votes@.push(a));
                assert(nq[i as int].votes@.map_values(|x: Address| x@) =~= before_q[i as int].votes@.map_values(
                    |x: Address| x@,
                ).push(voter@));
                assert(nq[i as int]@ == target[i as int]);
                assert forall|k: int| 0 <= k < nq.len() implies #[trigger] query_views(nq)[k] == (if k == i {
                    target[k]
                } else {
                    query_views(before_q)[k]
                }) by {
                    if k != i {
                        assert(nq[k] == before_q[k]);
                    }
                }
            }
        } else {
            proof {
                assert(target[i as int] == old_v[i as int]);
            }
        }
        i = i + 1;
    }
    proof {
        let nv = query_views(queries@);
        assert(nv =~= target);
        assert forall|a: int, b: int| 0 <= a < b < nv.len() implies query_before(#[trigger] nv[a], #[trigger] nv[b]) by {
            assert(query_before(old_v[a], old_v[b]));
        }
        assert forall|k: int| 0 <= k < nv.len() implies (#[trigger] nv[k]).6.no_duplicates() by {
            assert(old_v[k].6.no_duplicates());
        }
    }
}

/// Takes out the pending queries that are ready once `applied` is applied,
/// in order, and keeps the others in order.
fn take_ready(queries: &mut Vec<PendingQuery>, applied: u64) -> (ready: Vec<PendingQuery>)
    requires
        queries_wf(query_views(old(queries)@)),
    ensures
        query_views(ready@) == ready_part(query_views(old(queries)@), applied),
        query_views(final(queries)@) == waiting_part(query_views(old(queries)@), applied),
        queries_wf(query_views(final(queries)@)),
{
    let ghost orig = query_views(queries@);
    let mut rest: Vec<PendingQuery> = Vec::new();
    std::mem::swap(&mut rest, queries);
    let mut ready: Vec<PendingQuery> = Vec::new();
    let ghost mut c: int = 0;
    assert(query_views(rest@) =~= orig.skip(0));
    assert(orig.take(0) =~= Seq::<QueryView>::empty());
    while rest.len() > 0
        invariant
            0 <= c <= orig.len(),
            query_views(rest@) == orig.skip(c),
            query_views(ready@) == ready_part(orig.take(c), applied),
            query_views(queries@) == waiting_part(orig.take(c), applied),
        decreases rest.len(),
    {
        let ghost rv = rest@;
        proof {
            assert(query_views(rv).len() == rv.len());
            assert(c < orig.len());
            assert(query_views(rv)[0] == rv[0]@);
            assert(orig.skip(c)[0] == orig[c]);
        }
        let q = rest.remove(0);
        proof {
            assert(q@ == orig[c]);
            assert(orig.take(c + 1).drop_last() =~= orig.take(c));
            assert(orig.take(c + 1).last() == orig[c]);
            assert(rest@ == rv.remove(0));
        }
        if q.index <= applied && q.votes.len() as u64 >= q.quorum {
            ready.push(q);
        } else {
            queries.push(q);
        }
        proof {
            assert forall|k: int| 0 <= k < rest@.len() implies #[trigger] query_views(rest@)[k] == orig.skip(c + 1)[k] by {
                assert(rest@[k] == rv[k + 1]);
                assert(query_views(rv)[k + 1] == rv[k + 1]@);
                assert(orig.skip(c)[k + 1] == orig[c + 1 + k]);
            }
            assert(query_views(rest@) =~= orig.skip(c + 1));
            c = c + 1;
            assert(query_views(ready@) =~= ready_part(orig.take(c), applied));
            assert(query_views(queries@) =~= waiting_part(orig.take(c), applied));
        }
    }
    proof {
        assert(orig.take(c) =~= orig);
        lemma_waiting_wf(orig, applied);
    }
    ready
}

/// A Raft-managed state machine.
pub trait State {
    /// Returns the last applied index from the state machine, used when
    /// initializing the driver.
    fn applied_index(&self) -> u64;

    /// Mutates the state machine. If the state machine returns an internal
    /// error, the Raft node halts. For any other error, the state is applied
    /// and the error passed on to the caller.
    fn mutate(&mut self, index: u64, command: Vec<u8>) -> Result<Vec<u8>, Error>;

    /// Queries the state machine. All errors are passed on to the caller.
    fn query(&self, command: Vec<u8>) -> Result<Vec<u8>, Error>;
}

/// What the node asks of the state machine driver.
#[derive(Debug)]
pub enum Instruction {
    /// Abort all pending operations, e.g. due to leader change.
    Abort,
    /// Apply a log entry.
    Apply { entry: Entry },
    /// Notify the given address with the result of applying the entry at
    /// the given index.
    Notify { id: Vec<u8>, address: Address, index: u64 },
    /// Query the state machine when the given term and index have been
    /// confirmed by vote.
    Query { id: Vec<u8>, address: Address, command: Vec<u8>, term: u64, index: u64, quorum: u64 },
    /// Extend the given server status and return it to the given address.
    Status { id: Vec<u8>, address: Address, status: Box<Status> },
    /// Votes for queries at the given term and commit index.
    Vote { term: u64, index: u64, address: Address },
}

/// Whether `m` is the driver's response to request `id` of a client at
/// `to`, sent from the local node.
pub open spec fn response_to(m: Message, to: (u8, Seq<char>), id: Seq<u8>) -> bool {
    &&& m.from is Local
    &&& m.to@ == to
    &&& m.term == 0
    &&& m.event matches Event::ClientResponse { id: i, .. } && i@ == id
}

/// Whether `m` is the driver's response aborting request `id` of a client
/// at `to`.
pub open spec fn abort_to(m: Message, to: (u8, Seq<char>), id: Seq<u8>) -> bool {
    &&& response_to(m, to, id)
    &&& m.event matches Event::ClientResponse { response: Err(Error::Abort), .. }
}

/// Whether the response `m` carries is what the state machine gave: a
/// state, or an error that is not internal.
pub open spec fn from_state_machine(m: Message) -> bool {
    m.event matches Event::ClientResponse { response, .. } && !(response matches Err(Error::Internal(_)))
        && !(response matches Ok(Response::Status(_)))
}

/// Whether `m` answers the query `q` with what the state machine gave.
pub open spec fn answers(m: Message, q: QueryView) -> bool {
    response_to(m, q.3, q.1) && from_state_machine(m)
}

/// Whether `s` is `t` with, perhaps, another applied index.
pub open spec fn same_status_but_applied(s: Status, t: Status) -> bool {
    &&& s.server@ == t.server@
    &&& s.leader@ == t.leader@
    &&& s.term == t.term
    &&& s.node_last_index@ == t.node_last_index@
    &&& s.commit_index == t.commit_index
    &&& s.storage@ == t.storage@
    &&& s.storage_size == t.storage_size
}

/// The response to request `id` of the client at `to`.
fn respond(to: Address, id: Vec<u8>, response: Result<Response, Error>) -> (m: Message)
    ensures
        response_to(m, to@, id@),
        m.event matches Event::ClientResponse { response: r, .. } && r == response,
{
    Message { from: Address::Local, to, term: 0, event: Event::ClientResponse { id, response } }
}

/// What a client is answered with for a result of the state machine: the
/// state, or the error.
pub open spec fn spec_state_response(result: Result<Vec<u8>, Error>) -> Result<Response, Error> {
    match result {
        Ok(v) => Ok(Response::State(v)),
        Err(e) => Err(e),
    }
}

/// The internal error in the outcome of an entry (`None` for an entry
/// without a command, else what the state machine returned for it), which
/// halts the driver, or `None` when there is none.
pub open spec fn refusal(outcome: Option<Result<Vec<u8>, Error>>) -> Option<Error> {
    match outcome {
        Some(Err(Error::Internal(e))) => Some(Error::Internal(e)),
        _ => None,
    }
}

/// What the state machine answered, as a response.
pub fn state_response(result: Result<Vec<u8>, Error>) -> (r: Result<Response, Error>)
    ensures
        r == spec_state_response(result),
{
    match result {
        Ok(v) => Ok(Response::State(v)),
        Err(e) => Err(e),
    }
}

/// The answer to the query of request `id` from the client at `to`, given
/// what the state machine returned for it: an internal error is returned,
/// to halt the driver; any other result goes to the client.
pub fn answer_query(to: Address, id: Vec<u8>, result: Result<Vec<u8>, Error>) -> (r: Result<Message, Error>)
    ensures
        match result {
            Err(Error::Internal(e)) => r == Err::<Message, Error>(Error::Internal(e)),
            _ => r matches Ok(m) && response_to(m, to@, id@) && (m.event matches Event::ClientResponse {
                response,
                ..
            } && response == spec_state_response(result)),
        },
{
    match result {
        Err(Error::Internal(e)) => Err(Error::Internal(e)),
        result => Ok(respond(to, id, state_response(result))),
    }
}

/// The index of the last of `entries` that holds a command, or `applied`
/// when none does.
pub open spec fn last_command_index(entries: Seq<Entry>, applied: u64) -> u64
    decreases entries.len(),
{
    if entries.len() == 0 {
        applied
    } else if entries.last().command is Some {
        entries.last().index
    } else {
        last_command_index(entries.drop_last(), applied)
    }
}

/// Drives a state machine, taking the node's instructions and answering
/// its clients.
pub struct Driver {
    applied_index: u64,
    /// Clients to notify when their mutation is applied, by index.
    notify: HashMap<u64, (Address, Vec<u8>)>,
    /// Queries waiting for their index to be applied and a quorum of votes,
    /// in order of index and id.
    queries: Vec<PendingQuery>,
}

impl Driver {
    /// The index last applied.
    pub closed spec fn applied(&self) -> u64 {
        self.applied_index
    }

    /// The clients to notify, by index: their address and request id.
    pub closed spec fn notices(&self) -> Map<u64, ((u8, Seq<char>), Seq<u8>)> {
        self.notify@.map_values(|v: (Address, Vec<u8>)| (v.0@, v.1@))
    }

    /// The pending queries, in order.
    pub closed spec fn pending(&self) -> Seq<QueryView> {
        query_views(self.queries@)
    }

    /// The pending queries are in order, none filed twice, none with a
    /// voter twice.
    pub closed spec fn wf(&self) -> bool {
        queries_wf(query_views(self.queries@))
    }

    /// A driver with nothing applied and nothing pending.
    pub fn new() -> (d: Driver)
        ensures
            d.wf(),
            d.applied() == 0,
            d.notices() == Map::<u64, ((u8, Seq<char>), Seq<u8>)>::empty(),
            d.pending() == Seq::<QueryView>::empty(),
    {
        let d = Driver { applied_index: 0, notify: HashMap::new(), queries: Vec::new() };
        assert(d.notices() =~= Map::<u64, ((u8, Seq<char>), Seq<u8>)>::empty());
        assert(d.pending() =~= Seq::<QueryView>::empty());
        d
    }

    /// Remembers to notify `address` of the result of request `id` when the
    /// entry at `index` is applied, in place of any client remembered for
    /// that index.
    fn remember(&mut self, index: u64, address: Address, id: Vec<u8>)
        ensures
            final(self).notices() == old(self).notices().insert(index, (address@, id@)),
            final(self).queries == old(self).queries,
            final(self).applied_index == old(self).applied_index,
    {
        broadcast use vstd::std_specs::hash::group_hash_axioms;
        self.notify.insert(index, (address, id));
        assert(self.notices() =~= old(self).notices().insert(index, (address@, id@)));
    }

    /// Records the outcome of the entry at `index`: `None` for an entry
    /// without a command, else what the state machine returned for its
    /// command. An internal error is returned and nothing changes. Otherwise
    /// the entry is applied, and the client waiting on a command's index, if
    /// any, is answered with the result and forgotten.
    pub fn apply_outcome(&mut self, index: u64, outcome: Option<Result<Vec<u8>, Error>>) -> (r: Result<
        Option<Message>,
        Error,
    >)
        ensures
            refusal(outcome) is Some ==> r == Err::<Option<Message>, Error>(refusal(outcome)->0) && *final(self)
                == *old(self),
            refusal(outcome) is None ==> {
                &&& final(self).applied() == index
                &&& final(self).pending() == old(self).pending()
                &&& final(self).wf() == old(self).wf()
                &&& final(self).notices() == if outcome is Some {
                    old(self).notices().remove(index)
                } else {
                    old(self).notices()
                }
                &&& if outcome is Some && old(self).notices().contains_key(index) {
                    r matches Ok(Some(m)) && response_to(m, old(self).notices()[index].0, old(self).notices()[index].1)
                        && (m.event matches Event::ClientResponse { response, .. } && response
                        == spec_state_response(outcome->0))
                } else {
                    r == Ok::<Option<Message>, Error>(None)
                }
            },
    {
        let mut message = None;
        match outcome {
            Some(Err(Error::Internal(e))) => return Err(Error::Internal(e)),
            Some(result) => {
                if let Some((to, id)) = self.take_notice(index) {
                    message = Some(respond(to, id, state_response(result)));
                }
            },
            None => {},
        }
        self.applied_index = index;
        Ok(message)
    }

    /// Takes out the client to notify for the entry at `index`, if any.
    fn take_notice(&mut self, index: u64) -> (r: Option<(Address, Vec<u8>)>)
        ensures
            final(self).notices() == old(self).notices().remove(index),
            final(self).queries == old(self).queries,
            final(self).applied_index == old(self).applied_index,
            match r {
                Some(v) => old(self).notices().contains_key(index) && old(self).notices()[index] == (v.0@, v.1@),
                None => !old(self).notices().contains_key(index),
            },
    {
        broadcast use vstd::std_specs::hash::group_hash_axioms;
        let r = self.notify.remove(&index);
        assert(self.notices() =~= old(self).notices().remove(index));
        r
    }

    /// Aborts every client waiting to be notified: returns one abort
    /// response for each, in no particular order, and forgets them.
    fn abort_notices(&mut self) -> (out: Vec<Message>)
        ensures
            final(self).notices() == Map::<u64, ((u8, Seq<char>), Seq<u8>)>::empty(),
            final(self).queries == old(self).queries,
            final(self).applied_index == old(self).applied_index,
            exists|ks: Seq<u64>|
                {
                    &&& ks.no_duplicates()
                    &&& ks.to_set() == old(self).notices().dom()
                    &&& ks.len() == out@.len()
                    &&& forall|j: int|
                        0 <= j < ks.len() ==> abort_to(
                            #[trigger] out@[j],
                            old(self).notices()[ks[j]].0,
                            old(self).notices()[ks[j]].1,
                        )
                },
    {
        broadcast use vstd::std_specs::hash::group_hash_axioms;
        let ghost start = self.notices();
        let mut keys: Vec<u64> = Vec::new();
        for k in it: self.notify.keys()
            invariant
                it.seq() == vstd::std_specs::hash::spec_keys_iter(&self.notify).remaining(),
                keys@.len() == it.index(),
                forall|j: int| 0 <= j < it.index() ==> keys@[j] == *it.seq()[j],
        {
            keys.push(*k);
        }
        proof {
            let rem = vstd::std_specs::hash::spec_keys_iter(&self.notify).remaining();
            assert(keys@ =~= rem.unref());
            assert(rem.unref().to_set() == self.notify@.dom());
            assert(self.notify@.dom() =~= start.dom());
            assert(rem.no_duplicates());
            assert(keys@.no_duplicates()) by {
                assert forall|a: int, b: int| 0 <= a < b < keys@.len() implies keys@[a] != keys@[b] by {
                    assert(rem[a] != rem[b]);
                }
            }
        }
        let mut out: Vec<Message> = Vec::new();
        let mut i: usize = 0;
        while i < keys.len()
            invariant
                i <= keys.len(),
                keys@.no_duplicates(),
                keys@.to_set() == start.dom(),
                out@.len() == i,
                forall|j: int| 0 <= j < i ==> abort_to(#[trigger] out@[j], start[keys@[j]].0, start[keys@[j]].1),
                forall|j: int| i <= j < keys@.len() ==> self.notices().contains_key(#[trigger] keys@[j])
                    && self.notices()[keys@[j]] == start[keys@[j]],
                self.notices().dom() == start.dom().difference(keys@.take(i as int).to_set()),
                self.queries == old(self).queries,
                self.applied_index == old(self).applied_index,
            decreases keys.len() - i,
        {
            let k = keys[i];
            let ghost before = self.notices();
            match self.take_notice(k) {
                Some((address, id)) => {
                    out.push(respond(address, id, Err(Error::Abort)));
                },
                None => {
                    proof {
                        assert(false);
                    }
                },
            }
            proof {
                assert(keys@.take(i + 1) =~= keys@.take(i as int).push(k));
                keys@.take(i as int).lemma_push_to_set_commute(k);
                assert forall|j: int| i + 1 <= j < keys@.len() implies self.notices().contains_key(
                    #[trigger] keys@[j],
                ) && self.notices()[keys@[j]] == start[keys@[j]] by {
                    assert(keys@[j] != k);
                }
                assert(self.notices().dom() =~= start.dom().difference(keys@.take(i + 1).to_set()));
            }
            i = i + 1;
        }
        proof {
            assert(keys@.take(keys.len() as int) =~= keys@);
            assert(self.notices().dom() =~= Set::<u64>::empty());
            assert(self.notices() =~= Map::<u64, ((u8, Seq<char>), Seq<u8>)>::empty());
        }
        out
    }

    /// Aborts every pending query: returns one abort response for each, in
    /// their order, and forgets them.
    fn abort_queries(&mut self) -> (out: Vec<Message>)
        requires
            old(self).wf(),
        ensures
            final(self).wf(),
            final(self).pending() == Seq::<QueryView>::empty(),
            final(self).notices() == old(self).notices(),
            final(self).applied_index == old(self).applied_index,
            out@.len() == old(self).pending().len(),
            forall|j: int|
                0 <= j < out@.len() ==> abort_to(#[trigger] out@[j], old(self).pending()[j].3, old(self).pending()[j].1),
    {
        let ghost orig = self.pending();
        let mut rest: Vec<PendingQuery> = Vec::new();
        std::mem::swap(&mut rest, &mut self.queries);
        let mut out: Vec<Message> = Vec::new();
        let ghost mut c: int = 0;
        assert(query_views(rest@) =~= orig.skip(0));
        while rest.len() > 0
            invariant
                0 <= c <= orig.len(),
                query_views(rest@) == orig.skip(c),
                out@.len() == c,
                forall|j: int| 0 <= j < c ==> abort_to(#[trigger] out@[j], orig[j].3, orig[j].1),
                self.queries@.len() == 0,
                self.notices() == old(self).notices(),
                self.applied_index == old(self).applied_index,
            decreases rest.len(),
        {
            let ghost rv = rest@;
            proof {
                assert(query_views(rv).len() == rv.len());
                assert(c < orig.len());
                assert(query_views(rv)[0] == rv[0]@);
                assert(orig.skip(c)[0] == orig[c]);
            }
            let q = rest.remove(0);
            out.push(respond(q.address, q.id, Err(Error::Abort)));
            proof {
                assert forall|k: int| 0 <= k < rest@.len() implies #[trigger] query_views(rest@)[k] == orig.skip(c + 1)[k] by {
                    assert(rest@[k] == rv[k + 1]);
                    assert(query_views(rv)[k + 1] == rv[k + 1]@);
                    assert(orig.skip(c)[k + 1] == orig[c + 1 + k]);
                }
                assert(query_views(rest@) =~= orig.skip(c + 1));
                c = c + 1;
            }
        }
        assert(self.pending() =~= Seq::<QueryView>::empty());
        out
    }

    /// Runs the queries that are ready once the applied index is applied, in
    /// order, answering each with what the state machine gives; returns the
    /// answers, and stops at an internal error of the state machine, which
    /// it returns. The queries that are ready leave the pending ones either
    /// way.
    fn query_execute<S: State>(&mut self, state: &S) -> (out: (Vec<Message>, Result<(), Error>))
        requires
            old(self).wf(),
        ensures
            final(self).wf(),
            final(self).pending() == waiting_part(old(self).pending(), old(self).applied_index),
            final(self).notices() == old(self).notices(),
            final(self).applied_index == old(self).applied_index,
            out.0@.len() <= ready_part(old(self).pending(), old(self).applied_index).len(),
            forall|j: int|
                0 <= j < out.0@.len() ==> answers(
                    #[trigger] out.0@[j],
                    ready_part(old(self).pending(), old(self).applied_index)[j],
                ),
            out.1 is Ok ==> out.0@.len() == ready_part(old(self).pending(), old(self).applied_index).len(),
            out.1 is Err ==> out.1 matches Err(Error::Internal(_)),
    {
        let mut rest = take_ready(&mut self.queries, self.applied_index);
        let ghost orig = query_views(rest@);
        assert(orig == ready_part(old(self).pending(), old(self).applied_index));
        let mut out: Vec<Message> = Vec::new();
        let ghost mut c: int = 0;
        assert(query_views(rest@) =~= orig.skip(0));
        while rest.len() > 0
            invariant
                0 <= c <= orig.len(),
                query_views(rest@) == orig.skip(c),
                out@.len() == c,
                forall|j: int| 0 <= j < c ==> answers(#[trigger] out@[j], orig[j]),
                orig == ready_part(old(self).pending(), old(self).applied_index),
                self.wf(),
                self.pending() == waiting_part(old(self).pending(), old(self).applied_index),
                self.notices() == old(self).notices(),
                self.applied_index == old(self).applied_index,
            decreases rest.len(),
        {
            let ghost rv = rest@;
            proof {
                assert(query_views(rv).len() == rv.len());
                assert(c < orig.len());
                assert(query_views(rv)[0] == rv[0]@);
                assert(orig.skip(c)[0] == orig[c]);
            }
            let q = rest.remove(0);
            let result = state.query(q.command);
            match answer_query(q.address, q.id, result) {
                Err(e) => {
                    return (out, Err(e));
                },
                Ok(m) => {
                    out.push(m);
                },
            }
            proof {
                assert forall|k: int| 0 <= k < rest@.len() implies #[trigger] query_views(rest@)[k] == orig.skip(c + 1)[k] by {
                    assert(rest@[k] == rv[k + 1]);
                    assert(query_views(rv)[k + 1] == rv[k + 1]@);
                    assert(orig.skip(c)[k + 1] == orig[c + 1 + k]);
                }
                assert(query_views(rest@) =~= orig.skip(c + 1));
                c = c + 1;
            }
        }
        (out, Ok(()))
    }

    /// Replays log entries on the state machine, in order, for the initial
    /// sync: each command is applied, and the applied index follows; an
    /// internal error of the state machine on a command stops the replay
    /// before that command's index is applied, and is returned.
    pub fn replay<S: State>(&mut self, state: &mut S, entries: Vec<Entry>) -> (res: Result<(), Error>)
        ensures
            final(self).notices() == old(self).notices(),
            final(self).pending() == old(self).pending(),
            final(self).wf() == old(self).wf(),
            match res {
                Ok(()) => final(self).applied() == last_command_index(entries@, old(self).applied()),
                Err(e) => e is Internal && exists|k: int|
                    0 <= k < entries@.len() && entries@[k].command is Some && final(self).applied()
                        == last_command_index(#[trigger] entries@.take(k), old(self).applied()),
            },
    {
        let ghost all = entries@;
        let mut i: usize = 0;
        assert(all.take(0) =~= Seq::<Entry>::empty());
        while i < entries.len()
            invariant
                i <= entries.len(),
                entries@ == all,
                self.applied_index == last_command_index(all.take(i as int), old(self).applied_index),
                self.notify == old(self).notify,
                self.queries == old(self).queries,
            decreases entries.len() - i,
        {
            proof {
                assert(all.take(i + 1).drop_last() =~= all.take(i as int));
            }
            let entry = &entries[i];
            match &entry.command {
                Some(command) => {
                    match state.mutate(entry.index, command.clone()) {
                        Err(Error::Internal(e)) => return Err(Error::Internal(e)),
                        _ => {
                            self.applied_index = entry.index;
                        },
                    }
                },
                None => {},
            }
            i = i + 1;
        }
        proof {
            assert(all.take(i as int) =~= all);
        }
        Ok(())
    }

    /// Executes one instruction of the node against the state machine;
    /// returns the messages to send, in order, and an internal error of
    /// the state machine, which halts the driver. Aborting answers every
    /// waiting client with an abort; applying an entry runs its command,
    /// answers the client waiting on it and runs the queries it makes ready
    /// (an internal error of the command leaves the entry unapplied and the
    /// driver unchanged); a notice is remembered if its index is not applied yet and aborted
    /// otherwise; a query waits; a status is completed with the applied index
    /// and returned; a vote counts for the queries up to its index and runs
    /// those it makes ready.
    pub fn execute<S: State>(&mut self, i: Instruction, state: &mut S) -> (out: (Vec<Message>, Result<(), Error>))
        requires
            old(self).wf(),
        ensures
            final(self).wf(),
            out.1 is Err ==> out.1 matches Err(Error::Internal(_)),
            match i {
                Instruction::Abort => {
                    &&& out.1 is Ok
                    &&& final(self).notices() == Map::<u64, ((u8, Seq<char>), Seq<u8>)>::empty()
                    &&& final(self).pending() == Seq::<QueryView>::empty()
                    &&& final(self).applied() == old(self).applied()
                    &&& out.0@.len() == old(self).notices().dom().len() + old(self).pending().len()
                    &&& exists|ks: Seq<u64>|
                        {
                            &&& ks.no_duplicates()
                            &&& ks.to_set() == old(self).notices().dom()
                            &&& ks.len() == old(self).notices().dom().len()
                            &&& forall|j: int|
                                0 <= j < ks.len() ==> abort_to(
                                    #[trigger] out.0@[j],
                                    old(self).notices()[ks[j]].0,
                                    old(self).notices()[ks[j]].1,
                                )
                        }
                    &&& forall|j: int|
                        0 <= j < old(self).pending().len() ==> abort_to(
                            out.0@[old(self).notices().dom().len() + j],
                            (#[trigger] old(self).pending()[j]).3,
                            old(self).pending()[j].1,
                        )
                },
                Instruction::Apply { entry } => {
                    let notified = entry.command is Some && old(self).notices().contains_key(entry.index);
                    let skip: int = if notified {
                        1
                    } else {
                        0
                    };
                    let ready = ready_part(old(self).pending(), entry.index);
                    exists|outcome: Option<Result<Vec<u8>, Error>>|
                        {
                            &&& (outcome is Some <==> entry.command is Some)
                            &&& refusal(outcome) is Some ==> {
                                &&& out.1 == Err::<(), Error>(refusal(outcome)->0)
                                &&& out.0@.len() == 0
                                &&& final(self).applied() == old(self).applied()
                                &&& final(self).notices() == old(self).notices()
                                &&& final(self).pending() == old(self).pending()
                            }
                            &&& refusal(outcome) is None ==> {
                                &&& final(self).applied() == entry.index
                                &&& final(self).notices() == if entry.command is Some {
                                    old(self).notices().remove(entry.index)
                                } else {
                                    old(self).notices()
                                }
                                &&& final(self).pending() == waiting_part(old(self).pending(), entry.index)
                                &&& skip <= out.0@.len() <= skip + ready.len()
                                &&& out.1 is Ok ==> out.0@.len() == skip + ready.len()
                                &&& notified ==> response_to(
                                    out.0@[0],
                                    old(self).notices()[entry.index].0,
                                    old(self).notices()[entry.index].1,
                                ) && (out.0@[0].event matches Event::ClientResponse { response, .. } && response
                                    == spec_state_response(outcome->0))
                                &&& forall|j: int|
                                    0 <= j < out.0@.len() - skip ==> answers(out.0@[skip + j], #[trigger] ready[j])
                            }
                        }
                },
                Instruction::Notify { id, address, index } => {
                    &&& out.1 is Ok
                    &&& final(self).pending() == old(self).pending()
                    &&& final(self).applied() == old(self).applied()
                    &&& ((final(self).notices() == old(self).notices().insert(index, (address@, id@))
                        && out.0@.len() == 0) || (final(self).notices() == old(self).notices() && out.0@.len()
                        == 1 && abort_to(out.0@[0], address@, id@)))
                },
                Instruction::Query { id, address, command, term, index, quorum } => {
                    let q: QueryView = (index, id@, term, address@, command@, quorum, Seq::empty());
                    &&& out.1 is Ok
                    &&& out.0@.len() == 0
                    &&& final(self).notices() == old(self).notices()
                    &&& final(self).applied() == old(self).applied()
                    &&& forall|x: QueryView|
                        final(self).pending().contains(x) <==> (x == q || (old(self).pending().contains(x)
                            && !same_key(x, q)))
                },
                Instruction::Status { id, address, status } => {
                    &&& out.1 is Ok
                    &&& final(self).notices() == old(self).notices()
                    &&& final(self).pending() == old(self).pending()
                    &&& final(self).applied() == old(self).applied()
                    &&& out.0@.len() == 1
                    &&& response_to(out.0@[0], address@, id@)
                    &&& out.0@[0].event matches Event::ClientResponse { response: Ok(Response::Status(s)), .. }
                        && same_status_but_applied(s, *status)
                },
                Instruction::Vote { term, index, address } => {
                    let counted = Seq::new(
                        old(self).pending().len(),
                        |k: int| voted(old(self).pending()[k], term, index, address@),
                    );
                    let ready = ready_part(counted, old(self).applied());
                    &&& final(self).notices() == old(self).notices()
                    &&& final(self).applied() == old(self).applied()
                    &&& final(self).pending() == waiting_part(counted, old(self).applied())
                    &&& out.0@.len() <= ready.len()
                    &&& out.1 is Ok ==> out.0@.len() == ready.len()
                    &&& forall|j: int| 0 <= j < out.0@.len() ==> answers(#[trigger] out.0@[j], ready[j])
                },
            },
    {
        match i {
            Instruction::Abort => {
                let ghost n = old(self).notices();
                let ghost p = old(self).pending();
                let mut out = self.abort_notices();
                let ghost first = out@;
                let mut queries = self.abort_queries();
                let ghost qs = queries@;
                out.append(&mut queries);
                proof {
                    assert(out@ =~= first + qs);
                    let ks = choose|ks: Seq<u64>|
                        {
                            &&& ks.no_duplicates()
                            &&& ks.to_set() == n.dom()
                            &&& ks.len() == first.len()
                            &&& forall|j: int|
                                0 <= j < ks.len() ==> abort_to(#[trigger] first[j], n[ks[j]].0, n[ks[j]].1)
                        };
                    ks.unique_seq_to_set();
                    assert(ks.len() == n.dom().len());
                    assert(first.len() == n.dom().len());
                    assert(qs.len() == p.len());
                    assert forall|j: int| 0 <= j < p.len() implies abort_to(
                        out@[n.dom().len() + j],
                        (#[trigger] p[j]).3,
                        p[j].1,
                    ) by {
                        assert(out@[first.len() + j] == qs[j]);
                    }
                    assert forall|j: int| 0 <= j < ks.len() implies abort_to(
                        #[trigger] out@[j],
                        n[ks[j]].0,
                        n[ks[j]].1,
                    ) by {
                        assert(out@[j] == first[j]);
                    }
                }
                (out, Ok(()))
            },
            Instruction::Apply { entry } => {
                let mut out: Vec<Message> = Vec::new();
                let index = entry.index;
                let outcome = match entry.command {
                    Some(command) => Some(state.mutate(index, command)),
                    None => None,
                };
                let ghost g = outcome;
                match self.apply_outcome(index, outcome) {
                    Err(e) => {
                        assert(refusal(g) is Some);
                        return (out, Err(e));
                    },
                    Ok(Some(m)) => out.push(m),
                    Ok(None) => {},
                }
                assert(refusal(g) is None);
                let (mut answers, res) = self.query_execute(state);
                let ghost first = out@;
                out.append(&mut answers);
                proof {
                    assert forall|j: int| 0 <= j < first.len() implies out@[j] == first[j] by {}
                }
                (out, res)
            },
            Instruction::Notify { id, address, index } => {
                if index > state.applied_index() {
                    self.remember(index, address, id);
                    (Vec::new(), Ok(()))
                } else {
                    let mut out: Vec<Message> = Vec::new();
                    out.push(respond(address, id, Err(Error::Abort)));
                    (out, Ok(()))
                }
            },
            Instruction::Query { id, address, command, term, index, quorum } => {
                let ghost qv: QueryView = (index, id@, term, address@, command@, quorum, Seq::empty());
                let q = PendingQuery { index, id, term, address, command, quorum, votes: Vec::new() };
                assert(q@.6 =~= Seq::<(u8, Seq<char>)>::empty());
                assert(q@ == qv);
                let ghost before = query_views(self.queries@);
                assert(before == old(self).pending());
                file_query(&mut self.queries, q);
                assert forall|x: QueryView| #[trigger] self.pending().contains(x) <==> (x == qv || (
                old(self).pending().contains(x) && !same_key(x, qv))) by {
                    assert(query_views(self.queries@).contains(x) <==> (x == qv || (before.contains(x)
                        && !same_key(x, qv))));
                }
                (Vec::new(), Ok(()))
            },
            Instruction::Status { id, address, mut status } => {
                status.apply_index = state.applied_index();
                let mut out: Vec<Message> = Vec::new();
                out.push(respond(address, id, Ok(Response::Status(*status))));
                (out, Ok(()))
            },
            Instruction::Vote { term, index, address } => {
                vote_queries(&mut self.queries, term, index, &address);
                self.query_execute(state)
            },
        }
    }
}

} // verus!
