//! Submits forwarded upstream and not yet answered, keyed by the request id
//! the proxy used upstream, so that each response goes back to the worker
//! under the id the worker chose.
use crate::job_id::Upstream;
use std::collections::{HashMap, VecDeque};
use vstd::prelude::*;

verus! {

broadcast use vstd::std_specs::hash::group_hash_axioms;

/// One outstanding submit: the worker's own request id and the pool it went to.
#[derive(Clone, Copy, Debug, PartialEq, Eq, Structural)]
pub struct PendingSubmit {
    pub worker_id: u64,
    pub pool: Upstream,
}

pub struct PendingSubmits {
    map: HashMap<u64, PendingSubmit>,
    next_id: u64,
}

impl View for PendingSubmits {
    type V = Map<u64, PendingSubmit>;

    closed spec fn view(&self) -> Map<u64, PendingSubmit> {
        self.map@
    }
}

impl PendingSubmits {
    /// The upstream request id the next submit will get.
    pub closed spec fn spec_next_id(&self) -> u64 {
        self.next_id
    }

    /// Every outstanding id was handed out before `next_id`.
    pub closed spec fn wf(&self) -> bool {
        forall|k: u64| self.map@.contains_key(k) ==> k < self.next_id
    }

    /// No submit outstanding; upstream ids start at `first_id`.
    pub fn new(first_id: u64) -> (p: Self)
        ensures
            p.wf(),
            p@ == Map::<u64, PendingSubmit>::empty(),
            p.spec_next_id() == first_id,
    {
        PendingSubmits { map: HashMap::new(), next_id: first_id }
    }

    pub fn next_id(&self) -> (r: u64)
        ensures
            r == self.spec_next_id(),
    {
        self.next_id
    }

    pub fn len(&self) -> (r: usize)
        requires
            self.wf(),
        ensures
            r == self@.len(),
    {
        proof {
            broadcast use vstd::std_specs::hash::axiom_hashmap_view_finite_dom;
        }
        self.map.len()
    }

    /// Records a submit of the worker's request `worker_id` forwarded to
    /// `pool`, and returns the fresh upstream id it goes out under.
    pub fn register(&mut self, worker_id: u64, pool: Upstream) -> (id: u64)
        requires
            old(self).wf(),
            old(self).spec_next_id() < u64::MAX,
        ensures
            final(self).wf(),
            id == old(self).spec_next_id(),
            final(self).spec_next_id() == id + 1,
            !old(self)@.contains_key(id),
            final(self)@ == old(self)@.insert(id, PendingSubmit { worker_id, pool }),
    {
        let id = self.next_id;
        self.map.insert(id, PendingSubmit { worker_id, pool });
        self.next_id = id + 1;
        id
    }

    /// Takes the submit that the upstream response `id` answers, if it is
    /// still outstanding. Used both for a response and for giving up on one.
    pub fn resolve(&mut self, id: u64) -> (r: Option<PendingSubmit>)
        requires
            old(self).wf(),
        ensures
            final(self).wf(),
            final(self).spec_next_id() == old(self).spec_next_id(),
            final(self)@ == old(self)@.remove(id),
            r is Some <==> old(self)@.contains_key(id),
            r matches Some(p) ==> old(self)@[id] == p,
    {
        self.map.remove(&id)
    }
}

/// Seconds after which an unanswered submit is given up.
pub const SUBMIT_DEADLINE_SECS: u64 = 30;

/// Upstream request ids in the order they were sent, with the time each was
/// sent, so that the overdue ones can be found at the front.
pub struct SubmitDeadlines {
    entries: VecDeque<(u64, u64)>,
    latest: u64,
}

pub open spec fn overdue(sent_at: u64, now: u64) -> bool {
    now - sent_at >= SUBMIT_DEADLINE_SECS
}

impl View for SubmitDeadlines {
    type V = Seq<(u64, u64)>;

    closed spec fn view(&self) -> Seq<(u64, u64)> {
        self.entries@
    }
}

impl SubmitDeadlines {
    /// The latest time seen; the clock never runs backwards.
    pub closed spec fn spec_latest(&self) -> u64 {
        self.latest
    }

    /// Times are in sending order and none lies after the latest time seen.
    pub open spec fn wf(&self) -> bool {
        &&& forall|i: int, j: int| 0 <= i <= j < self@.len() ==> self@[i].1 <= self@[j].1
        &&& forall|i: int| 0 <= i < self@.len() ==> self@[i].1 <= self.spec_latest()
    }

    pub fn new() -> (d: Self)
        ensures
            d.wf(),
            d@ == Seq::<(u64, u64)>::empty(),
            d.spec_latest() == 0,
    {
        SubmitDeadlines { entries: VecDeque::new(), latest: 0 }
    }

    /// Records that upstream request `id` was sent at time `now`.
    pub fn track(&mut self, id: u64, now: u64)
        requires
            old(self).wf(),
            now >= old(self).spec_latest(),
        ensures
            final(self).wf(),
            final(self)@ == old(self)@.push((id, now)),
            final(self).spec_latest() == now,
    {
        let ghost prev = self@;
        self.entries.push_back((id, now));
        self.latest = now;
        proof {
            assert forall|i: int, j: int| 0 <= i <= j < self@.len() implies self@[i].1 <= self@[j].1 by {
                if j < prev.len() {
                    assert(self@[i] == prev[i] && self@[j] == prev[j]);
                } else if i < prev.len() {
                    assert(self@[i] == prev[i]);
                }
            }
            assert forall|i: int| 0 <= i < self@.len() implies self@[i].1 <= self.latest by {
                if i < prev.len() {
                    assert(self@[i] == prev[i]);
                }
            }
        }
    }

    /// Removes and returns, oldest first, the ids of the requests that are
    /// overdue at time `now`; every request left is not.
    pub fn take_overdue(&mut self, now: u64) -> (ids: Vec<u64>)
        requires
            old(self).wf(),
            now >= old(self).spec_latest(),
        ensures
            final(self).wf(),
            final(self).spec_latest() == now,
            ({
                let k = ids@.len() as int;
                &&& k <= old(self)@.len()
                &&& forall|i: int| 0 <= i < k ==> ids@[i] == old(self)@[i].0 && overdue(old(self)@[i].1, now)
                &&& final(self)@ == old(self)@.subrange(k, old(self)@.len() as int)
                &&& forall|i: int| 0 <= i < final(self)@.len() ==> !overdue(final(self)@[i].1, now)
            }),
    {
        self.latest = now;
        let ghost start = self.entries@;
        let mut ids: Vec<u64> = Vec::new();
        while self.entries.len() > 0 && now - self.entries[0].1 >= SUBMIT_DEADLINE_SECS
            invariant
                self.latest == now,
                forall|i: int, j: int| 0 <= i <= j < start.len() ==> start[i].1 <= start[j].1,
                forall|i: int| 0 <= i < start.len() ==> start[i].1 <= now,
                ids@.len() <= start.len(),
                forall|i: int| 0 <= i < ids@.len() ==> ids@[i] == start[i].0 && overdue(start[i].1, now),
                self.entries@ == start.subrange(ids@.len() as int, start.len() as int),
            decreases self.entries@.len(),
        {
            let e = self.entries.pop_front();
            match e {
                Some((id, _)) => {
                    ids.push(id);
                },
                None => {},
            }
        }
        proof {
            let k = ids@.len() as int;
            if self.entries@.len() > 0 {
                assert forall|i: int| 0 <= i < self.entries@.len() implies !overdue(self.entries@[i].1, now) by {
                    assert(self.entries@[i] == start[k + i]);
                    assert(self.entries@[0] == start[k]);
                    assert(start[k].1 <= start[k + i].1);
                }
            }
        }
        ids
    }
}

/// Each forwarded submit is answered exactly once, under the worker's own
/// id: the response to its upstream id yields that worker id and the pool it
/// went to, and any further response to the same id yields nothing.
pub proof fn lemma_one_response_per_submit(
    m: Map<u64, PendingSubmit>,
    id: u64,
    worker_id: u64,
    pool: Upstream,
)
    requires
        !m.contains_key(id),
    ensures
        ({
            let registered = m.insert(id, PendingSubmit { worker_id, pool });
            &&& registered.contains_key(id)
            &&& registered[id] == PendingSubmit { worker_id, pool }
            &&& !registered.remove(id).contains_key(id)
            &&& registered.remove(id) == m
        }),
{
    let registered = m.insert(id, PendingSubmit { worker_id, pool });
    assert(registered.remove(id) =~= m);
}

} // verus!
