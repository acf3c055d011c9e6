//! The per-connection worker session: subscribe, authorize, then relay jobs
//! from the pools to the worker and shares from the worker to the pools.
use crate::fee::{injects, FeeScheduler};
use crate::job_id::{fee_job_id, fee_prefix, real_job_id, real_job_id_spec, route_job_id, route_spec, Upstream};
use crate::pending::{PendingSubmit, PendingSubmits};
use crate::queue::{push_evicting, BoundedQueue};
use crate::telemetry::{after_share, saturate, seq_sum, window_sum, Worker, HASHRATE_WINDOW};
use vstd::prelude::*;

verus! {

/// An upstream job: its id, and the rest of the notification passed through
/// untouched.
#[derive(Debug)]
pub struct Job {
    pub job_id: String,
    pub payload: String,
}

impl Job {
    pub fn duplicate(&self) -> (r: Job)
        ensures
            r == *self,
    {
        Job { job_id: self.job_id.clone(), payload: self.payload.clone() }
    }
}

#[derive(Clone, Copy, Debug, PartialEq, Eq, Structural)]
pub enum SessionState {
    Handshaking,
    Subscribed,
    Authorized,
    Relaying,
    Closed,
}

/// What happens to a session, as far as its state is concerned.
#[derive(Clone, Copy, Debug, PartialEq, Eq, Structural)]
pub enum SessionEvent {
    Subscribe,
    Authorize { accepted: bool },
    JobForwarded,
    Submit,
    Response,
    ConnectionLost,
}

pub open spec fn is_live(s: SessionState) -> bool {
    !(s is Closed)
}

/// Whether jobs flow to the worker and its shares are taken.
pub open spec fn is_authorized(s: SessionState) -> bool {
    s is Authorized || s is Relaying
}

pub open spec fn next_state(s: SessionState, e: SessionEvent) -> SessionState {
    if s is Closed {
        s
    } else {
        match e {
            SessionEvent::Subscribe => if s is Handshaking {
                SessionState::Subscribed
            } else {
                s
            },
            SessionEvent::Authorize { accepted } => if accepted && (s is Handshaking
                || s is Subscribed) {
                SessionState::Authorized
            } else {
                s
            },
            SessionEvent::JobForwarded => if s is Authorized {
                SessionState::Relaying
            } else {
                s
            },
            SessionEvent::Submit => s,
            SessionEvent::Response => s,
            SessionEvent::ConnectionLost => SessionState::Closed,
        }
    }
}

/// What to do with a share the worker submitted.
#[derive(Debug)]
pub enum SubmitAction {
    /// Send it to `pool` under request id `upstream_id` for job `job_id`.
    Forward { pool: Upstream, upstream_id: u64, job_id: String },
    /// Answer the worker with a stale-share error; forward nothing.
    Stale,
    /// The worker has not authorized: answer with an error.
    Unauthorized,
}

pub struct Session {
    pub state: SessionState,
    pub worker: Option<Worker>,
    pub scheduler: FeeScheduler,
    pub pending: PendingSubmits,
    /// The worker's recent hashrate reports, oldest first.
    pub hashrates: BoundedQueue<u64>,
}

impl Session {
    pub open spec fn wf(&self) -> bool {
        self.scheduler.wf() && self.pending.wf() && self.hashrates.wf()
    }

    /// A fresh connection, not yet subscribed.
    pub fn new(scheduler: FeeScheduler, first_request_id: u64) -> (s: Session)
        requires
            scheduler.wf(),
        ensures
            s.wf(),
            s.state == SessionState::Handshaking,
            s.worker is None,
            s.scheduler == scheduler,
            s.pending@ == Map::<u64, PendingSubmit>::empty(),
            s.hashrates@ == Seq::<u64>::empty(),
            s.hashrates.spec_capacity() == HASHRATE_WINDOW,
    {
        Session {
            state: SessionState::Handshaking,
            worker: None,
            scheduler,
            pending: PendingSubmits::new(first_request_id),
            hashrates: BoundedQueue::new(HASHRATE_WINDOW),
        }
    }

    pub fn is_closed(&self) -> (r: bool)
        ensures
            r == (self.state is Closed),
    {
        match self.state {
            SessionState::Closed => true,
            _ => false,
        }
    }

    /// `mining.subscribe`: returns whether to send the subscription result.
    pub fn on_subscribe(&mut self) -> (reply: bool)
        ensures
            final(self).state == next_state(old(self).state, SessionEvent::Subscribe),
            reply == is_live(old(self).state),
            final(self).worker == old(self).worker,
            final(self).scheduler == old(self).scheduler,
            final(self).pending == old(self).pending,
            final(self).hashrates == old(self).hashrates,
    {
        match self.state {
            SessionState::Closed => false,
            SessionState::Handshaking => {
                self.state = SessionState::Subscribed;
                true
            },
            _ => true,
        }
    }

    /// `mining.authorize`: a non-empty worker name is accepted and starts
    /// the worker's telemetry. Returns whether it was accepted.
    pub fn on_authorize(&mut self, worker_name: String, login_name: String, now: u64) -> (accepted: bool)
        ensures
            accepted == (worker_name@.len() > 0 && (old(self).state is Handshaking
                || old(self).state is Subscribed)),
            final(self).state == next_state(old(self).state, SessionEvent::Authorize { accepted }),
            accepted ==> final(self).worker == Some(
                Worker {
                    worker_name,
                    login_name,
                    accepted_shares: 0,
                    rejected_shares: 0,
                    accepted_fee_shares: 0,
                    rejected_fee_shares: 0,
                    hashrate: 0,
                    last_seen_at: now,
                },
            ),
            !accepted ==> final(self).worker == old(self).worker,
            final(self).scheduler == old(self).scheduler,
            final(self).pending == old(self).pending,
            final(self).hashrates == old(self).hashrates,
    {
        let open = match self.state {
            SessionState::Handshaking => true,
            SessionState::Subscribed => true,
            _ => false,
        };
        if open && !worker_name.as_str().is_empty() {
            self.worker = Some(Worker::new(worker_name, login_name, now));
            self.state = SessionState::Authorized;
            true
        } else {
            false
        }
    }
    /// A job pushed by the real pool. Once authorized, the fee scheduler
    /// decides whether the worker gets it (under its real-namespace id) or
    /// the newest job of `fee_jobs` (under its fee-namespace id); a fee job
    /// is offered only while the fee pool is up and has one. Returns the job
    /// to send, if any.
    pub fn on_pool_job(&mut self, job: &Job, fee_jobs: &BoundedQueue<Job>, fee_pool_up: bool) -> (out: Option<Job>)
        requires
            old(self).wf(),
            old(self).scheduler.sent_fee + old(self).scheduler.sent_real < u64::MAX,
        ensures
            final(self).wf(),
            final(self).worker == old(self).worker,
            final(self).pending == old(self).pending,
            !is_authorized(old(self).state) ==> out is None && final(self).state == old(self).state
                && final(self).scheduler == old(self).scheduler,
            is_authorized(old(self).state) ==> {
                let fee = injects(
                    old(self).scheduler.rate,
                    old(self).scheduler.sent_fee as nat,
                    old(self).scheduler.sent_real as nat,
                    fee_pool_up && fee_jobs@.len() > 0,
                );
                &&& final(self).state == next_state(old(self).state, SessionEvent::JobForwarded)
                &&& final(self).scheduler.rate == old(self).scheduler.rate
                &&& out is Some
                &&& fee ==> {
                    &&& out.unwrap().job_id@ == fee_prefix() + fee_jobs@.last().job_id@
                    &&& out.unwrap().payload == fee_jobs@.last().payload
                    &&& final(self).scheduler.sent_fee == old(self).scheduler.sent_fee + 1
                    &&& final(self).scheduler.sent_real == old(self).scheduler.sent_real
                }
                &&& !fee ==> {
                    &&& out.unwrap().job_id@ == real_job_id_spec(job.job_id@)
                    &&& out.unwrap().payload == job.payload
                    &&& final(self).scheduler.sent_fee == old(self).scheduler.sent_fee
                    &&& final(self).scheduler.sent_real == old(self).scheduler.sent_real + 1
                }
            },
    {
        match self.state {
            SessionState::Authorized => {},
            SessionState::Relaying => {},
            _ => {
                return None;
            },
        }
        let latest = if fee_pool_up {
            fee_jobs.latest()
        } else {
            None
        };
        let fee = self.scheduler.next_job_is_fee(latest.is_some());
        self.state = SessionState::Relaying;
        match latest {
            Some(f) if fee => Some(Job { job_id: fee_job_id(f.job_id.as_str()), payload: f.payload.clone() }),
            _ => Some(Job { job_id: real_job_id(job.job_id.as_str()), payload: job.payload.clone() }),
        }
    }

    /// A share submitted by the worker under its request id `worker_id`
    /// against the job the worker knows as `job_id`. A share is forwarded to
    /// the pool its job id names, under a fresh upstream request id recorded
    /// as pending; a share naming no job is stale.
    pub fn on_submit(&mut self, worker_id: u64, job_id: &str) -> (action: SubmitAction)
        requires
            old(self).wf(),
            old(self).pending.spec_next_id() < u64::MAX,
        ensures
            final(self).wf(),
            final(self).state == next_state(old(self).state, SessionEvent::Submit),
            final(self).worker == old(self).worker,
            final(self).scheduler == old(self).scheduler,
            !is_authorized(old(self).state) ==> action is Unauthorized && final(self).pending
                == old(self).pending,
            is_authorized(old(self).state) && route_spec(job_id@) is None ==> action is Stale
                && final(self).pending == old(self).pending,
            is_authorized(old(self).state) && route_spec(job_id@) is Some ==> match action {
                SubmitAction::Forward { pool, upstream_id, job_id: up } => {
                    &&& route_spec(job_id@) == Some((pool, up@))
                    &&& upstream_id == old(self).pending.spec_next_id()
                    &&& !old(self).pending@.contains_key(upstream_id)
                    &&& final(self).pending@ == old(self).pending@.insert(
                        upstream_id,
                        PendingSubmit { worker_id, pool },
                    )
                },
                _ => false,
            },
    {
        match self.state {
            SessionState::Authorized => {},
            SessionState::Relaying => {},
            _ => {
                return SubmitAction::Unauthorized;
            },
        }
        match route_job_id(job_id) {
            None => SubmitAction::Stale,
            Some((pool, up)) => {
                let upstream_id = self.pending.register(worker_id, pool);
                SubmitAction::Forward { pool, upstream_id, job_id: up }
            },
        }
    }

    /// The pool's response to upstream request `upstream_id`: the share is
    /// counted for the pool it went to, and the worker's own request id is
    /// returned so the response can be relayed under it. A response to no
    /// outstanding submit yields nothing.
    pub fn on_response(&mut self, upstream_id: u64, accepted: bool) -> (worker_id: Option<u64>)
        requires
            old(self).wf(),
        ensures
            final(self).wf(),
            final(self).state == next_state(old(self).state, SessionEvent::Response),
            final(self).scheduler == old(self).scheduler,
            final(self).pending@ == old(self).pending@.remove(upstream_id),
            worker_id is Some <==> old(self).pending@.contains_key(upstream_id),
            match worker_id {
                Some(w) => {
                    let p = old(self).pending@[upstream_id];
                    &&& w == p.worker_id
                    &&& final(self).worker == match old(self).worker {
                        Some(wk) => Some(after_share(wk, p.pool, accepted)),
                        None => None,
                    }
                },
                None => final(self).worker == old(self).worker,
            },
    {
        match self.pending.resolve(upstream_id) {
            Some(p) => {
                match &mut self.worker {
                    Some(w) => w.record_share(p.pool, accepted),
                    None => {},
                }
                Some(p.worker_id)
            },
            None => None,
        }
    }

    /// Gives up on upstream request `upstream_id` after its deadline: the
    /// worker's request id is returned for a synthetic error reply, and no
    /// share is counted.
    pub fn on_deadline(&mut self, upstream_id: u64) -> (worker_id: Option<u64>)
        requires
            old(self).wf(),
        ensures
            final(self).wf(),
            final(self).state == old(self).state,
            final(self).worker == old(self).worker,
            final(self).scheduler == old(self).scheduler,
            final(self).pending@ == old(self).pending@.remove(upstream_id),
            worker_id is Some <==> old(self).pending@.contains_key(upstream_id),
            worker_id matches Some(w) ==> w == old(self).pending@[upstream_id].worker_id,
    {
        match self.pending.resolve(upstream_id) {
            Some(p) => Some(p.worker_id),
            None => None,
        }
    }

    /// A hashrate report made at time `now`: it joins the window of recent
    /// reports, and once authorized the worker's hashrate becomes the sum of
    /// that window.
    pub fn on_hashrate(&mut self, hashrate: u64, now: u64)
        requires
            old(self).wf(),
        ensures
            final(self).wf(),
            final(self).state == old(self).state,
            final(self).scheduler == old(self).scheduler,
            final(self).pending == old(self).pending,
            final(self).hashrates.spec_capacity() == old(self).hashrates.spec_capacity(),
            final(self).hashrates@ == push_evicting(
                old(self).hashrates@,
                old(self).hashrates.spec_capacity(),
                hashrate,
            ),
            final(self).worker == match old(self).worker {
                Some(w) => Some(
                    Worker { hashrate: saturate(seq_sum(final(self).hashrates@)), last_seen_at: now, ..w },
                ),
                None => None,
            },
    {
        self.hashrates.push(hashrate);
        let sum = window_sum(&self.hashrates);
        match &mut self.worker {
            Some(w) => w.report_hashrate(sum, now),
            None => {},
        }
    }

    /// The connection is gone: the session closes and hands out the final
    /// snapshot of its worker, if it had authorized.
    pub fn close(&mut self) -> (last: Option<Worker>)
        ensures
            final(self).state == next_state(old(self).state, SessionEvent::ConnectionLost),
            final(self).state is Closed,
            last == old(self).worker,
            final(self).worker == old(self).worker,
            final(self).scheduler == old(self).scheduler,
            final(self).pending == old(self).pending,
            final(self).hashrates == old(self).hashrates,
    {
        self.state = SessionState::Closed;
        match &self.worker {
            Some(w) => Some(w.snapshot()),
            None => None,
        }
    }
}

/// Hands a pool job to every session's mailbox. A full mailbox drops its
/// oldest job, never the new one, and no mailbox waits on another.
pub fn fan_out(mailboxes: &mut Vec<BoundedQueue<Job>>, job: &Job)
    requires
        forall|i: int| 0 <= i < old(mailboxes)@.len() ==> (#[trigger] old(mailboxes)@[i]).wf(),
    ensures
        final(mailboxes)@.len() == old(mailboxes)@.len(),
        forall|i: int|
            0 <= i < final(mailboxes)@.len() ==> {
                &&& (#[trigger] final(mailboxes)@[i]).wf()
                &&& final(mailboxes)@[i].spec_capacity() == old(mailboxes)@[i].spec_capacity()
                &&& final(mailboxes)@[i]@ == push_evicting(
                    old(mailboxes)@[i]@,
                    old(mailboxes)@[i].spec_capacity(),
                    *job,
                )
            },
{
    let ghost orig = mailboxes@;
    let mut done: Vec<BoundedQueue<Job>> = Vec::new();
    while mailboxes.len() > 0
        invariant
            done@.len() + mailboxes@.len() == orig.len(),
            forall|i: int|
                0 <= i < mailboxes@.len() ==> #[trigger] mailboxes@[i] == orig[done@.len() + i],
            forall|i: int|
                0 <= i < done@.len() ==> {
                    &&& (#[trigger] done@[i]).wf()
                    &&& done@[i].spec_capacity() == orig[i].spec_capacity()
                    &&& done@[i]@ == push_evicting(orig[i]@, orig[i].spec_capacity(), *job)
                },
            forall|i: int| 0 <= i < orig.len() ==> (#[trigger] orig[i]).wf(),
        decreases mailboxes@.len(),
    {
        let ghost before = mailboxes@;
        let mut q = mailboxes.remove(0);
        assert(q == orig[done@.len() as int]);
        q.push(job.duplicate());
        done.push(q);
        assert forall|i: int| 0 <= i < mailboxes@.len() implies #[trigger] mailboxes@[i] == orig[done@.len() + i] by {
            assert(mailboxes@[i] == before[i + 1]);
        }
    }
    *mailboxes = done;
}

/// Only the loss of the worker's connection closes a session: no other
/// event, in particular none that a restart of the fee pool gives rise to,
/// drops it.
pub proof fn lemma_only_connection_loss_closes(s: SessionState, e: SessionEvent)
    requires
        is_live(s),
        !(e is ConnectionLost),
    ensures
        is_live(next_state(s, e)),
{
}

} // verus!
