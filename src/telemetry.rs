//! Per-worker telemetry: share counters that only grow, and the
//! supervisor's table of the latest snapshot of each worker.
use crate::job_id::Upstream;
use crate::queue::BoundedQueue;
use vstd::prelude::*;

verus! {

/// Telemetry of one worker connection.
#[derive(Debug)]
pub struct Worker {
    pub worker_name: String,
    pub login_name: String,
    pub accepted_shares: u64,
    pub rejected_shares: u64,
    pub accepted_fee_shares: u64,
    pub rejected_fee_shares: u64,
    /// Sum of the recently reported hashrates.
    pub hashrate: u64,
    /// Time of the last event, in seconds.
    pub last_seen_at: u64,
}

/// Every share counter of `b` is at least that of `a`.
pub open spec fn counters_le(a: Worker, b: Worker) -> bool {
    &&& a.accepted_shares <= b.accepted_shares
    &&& a.rejected_shares <= b.rejected_shares
    &&& a.accepted_fee_shares <= b.accepted_fee_shares
    &&& a.rejected_fee_shares <= b.rejected_fee_shares
}

pub open spec fn sat_inc(x: u64) -> u64 {
    if x == u64::MAX {
        x
    } else {
        (x + 1) as u64
    }
}

/// The worker after one share response from `pool`.
pub open spec fn after_share(w: Worker, pool: Upstream, accepted: bool) -> Worker {
    match (pool, accepted) {
        (Upstream::Real, true) => Worker { accepted_shares: sat_inc(w.accepted_shares), ..w },
        (Upstream::Real, false) => Worker { rejected_shares: sat_inc(w.rejected_shares), ..w },
        (Upstream::Fee, true) => Worker { accepted_fee_shares: sat_inc(w.accepted_fee_shares), ..w },
        (Upstream::Fee, false) => Worker { rejected_fee_shares: sat_inc(w.rejected_fee_shares), ..w },
    }
}

/// The worker after each of `shares` in turn, starting from `w`.
pub open spec fn after_shares(w: Worker, shares: Seq<(Upstream, bool)>) -> Worker
    decreases shares.len(),
{
    if shares.len() == 0 {
        w
    } else {
        let (pool, accepted) = shares.last();
        after_share(after_shares(w, shares.drop_last()), pool, accepted)
    }
}

/// How many recent hashrate reports a worker's hashrate sums.
pub const HASHRATE_WINDOW: usize = 8;

pub open spec fn seq_sum(s: Seq<u64>) -> int
    decreases s.len(),
{
    if s.len() == 0 {
        0
    } else {
        seq_sum(s.drop_last()) + s.last()
    }
}

pub open spec fn saturate(x: int) -> u64 {
    if x > u64::MAX {
        u64::MAX
    } else {
        x as u64
    }
}

/// The sum of the reports in `window`, saturated to `u64`.
pub fn window_sum(window: &BoundedQueue<u64>) -> (r: u64)
    ensures
        r == saturate(seq_sum(window@)),
{
    let mut acc: u128 = 0;
    let n = window.len();
    let mut i: usize = 0;
    while i < n
        invariant
            n == window@.len(),
            i <= window@.len(),
            acc == seq_sum(window@.subrange(0, i as int)),
            acc <= i * 0xffff_ffff_ffff_ffff,
        decreases window@.len() - i,
    {
        let x = *window.get(i);
        proof {
            let next = window@.subrange(0, i + 1);
            assert(next.drop_last() =~= window@.subrange(0, i as int));
            assert(next.last() == x);
            assert((i + 1) * 0xffff_ffff_ffff_ffff == i * 0xffff_ffff_ffff_ffff + 0xffff_ffff_ffff_ffff) by (nonlinear_arith);
            assert((i + 1) * 0xffff_ffff_ffff_ffff <= 0xffff_ffff_ffff_ffff_u128 * 0x1_0000_0000_0000_0000) by (nonlinear_arith)
                requires i < 0x1_0000_0000_0000_0000;
        }
        acc = acc + x as u128;
        i = i + 1;
    }
    proof {
        assert(window@.subrange(0, window@.len() as int) =~= window@);
    }
    if acc > u64::MAX as u128 {
        u64::MAX
    } else {
        acc as u64
    }
}

impl Worker {
    /// A worker that just authorized, with all counters at zero.
    pub fn new(worker_name: String, login_name: String, now: u64) -> (w: Worker)
        ensures
            w.worker_name == worker_name,
            w.login_name == login_name,
            w.accepted_shares == 0,
            w.rejected_shares == 0,
            w.accepted_fee_shares == 0,
            w.rejected_fee_shares == 0,
            w.hashrate == 0,
            w.last_seen_at == now,
    {
        Worker {
            worker_name,
            login_name,
            accepted_shares: 0,
            rejected_shares: 0,
            accepted_fee_shares: 0,
            rejected_fee_shares: 0,
            hashrate: 0,
            last_seen_at: now,
        }
    }

    /// A copy of this worker, to hand out as a snapshot.
    pub fn snapshot(&self) -> (r: Worker)
        ensures
            r == *self,
    {
        Worker {
            worker_name: self.worker_name.clone(),
            login_name: self.login_name.clone(),
            accepted_shares: self.accepted_shares,
            rejected_shares: self.rejected_shares,
            accepted_fee_shares: self.accepted_fee_shares,
            rejected_fee_shares: self.rejected_fee_shares,
            hashrate: self.hashrate,
            last_seen_at: self.last_seen_at,
        }
    }

    /// Counts the response to one share sent to `pool`. Counters saturate
    /// rather than wrap.
    pub fn record_share(&mut self, pool: Upstream, accepted: bool)
        ensures
            *final(self) == after_share(*old(self), pool, accepted),
            counters_le(*old(self), *final(self)),
    {
        match (pool, accepted) {
            (Upstream::Real, true) => {
                self.accepted_shares = self.accepted_shares.saturating_add(1);
            },
            (Upstream::Real, false) => {
                self.rejected_shares = self.rejected_shares.saturating_add(1);
            },
            (Upstream::Fee, true) => {
                self.accepted_fee_shares = self.accepted_fee_shares.saturating_add(1);
            },
            (Upstream::Fee, false) => {
                self.rejected_fee_shares = self.rejected_fee_shares.saturating_add(1);
            },
        }
    }

    /// Records a hashrate report made at time `now`.
    pub fn report_hashrate(&mut self, hashrate: u64, now: u64)
        ensures
            *final(self) == (Worker { hashrate, last_seen_at: now, ..*old(self) }),
    {
        self.hashrate = hashrate;
        self.last_seen_at = now;
    }
}

/// Snapshots of one worker are monotone: after any run of share responses
/// no counter is lower than before.
pub proof fn lemma_snapshots_monotone(w: Worker, shares: Seq<(Upstream, bool)>)
    ensures
        counters_le(w, after_shares(w, shares)),
    decreases shares.len(),
{
    if shares.len() > 0 {
        lemma_snapshots_monotone(w, shares.drop_last());
    }
}

/// How many of `shares` came from `pool` with outcome `accepted`.
pub open spec fn count_of(shares: Seq<(Upstream, bool)>, pool: Upstream, accepted: bool) -> nat
    decreases shares.len(),
{
    if shares.len() == 0 {
        0
    } else {
        count_of(shares.drop_last(), pool, accepted) + if shares.last() == (pool, accepted) {
            1nat
        } else {
            0nat
        }
    }
}

/// With counters starting at zero and fewer than `u64::MAX` responses, the
/// accepted and rejected counters of each pool equal the number of
/// responses of that kind.
pub proof fn lemma_counters_count_responses(w: Worker, shares: Seq<(Upstream, bool)>)
    requires
        w.accepted_shares == 0,
        w.rejected_shares == 0,
        w.accepted_fee_shares == 0,
        w.rejected_fee_shares == 0,
        shares.len() < u64::MAX,
    ensures
        after_shares(w, shares).accepted_shares == count_of(shares, Upstream::Real, true),
        after_shares(w, shares).rejected_shares == count_of(shares, Upstream::Real, false),
        after_shares(w, shares).accepted_fee_shares == count_of(shares, Upstream::Fee, true),
        after_shares(w, shares).rejected_fee_shares == count_of(shares, Upstream::Fee, false),
    decreases shares.len(),
{
    if shares.len() > 0 {
        let rest = shares.drop_last();
        lemma_counters_count_responses(w, rest);
        lemma_count_bounded(rest, Upstream::Real, true);
        lemma_count_bounded(rest, Upstream::Real, false);
        lemma_count_bounded(rest, Upstream::Fee, true);
        lemma_count_bounded(rest, Upstream::Fee, false);
    }
}

proof fn lemma_count_bounded(shares: Seq<(Upstream, bool)>, pool: Upstream, accepted: bool)
    ensures
        count_of(shares, pool, accepted) <= shares.len(),
    decreases shares.len(),
{
    if shares.len() > 0 {
        lemma_count_bounded(shares.drop_last(), pool, accepted);
    }
}

/// A worker snapshot as shipped to the supervisor, tagged with the name of
/// the proxy instance.
#[derive(Debug)]
pub struct SendToParentStruct {
    pub name: String,
    pub worker: Worker,
}

/// The supervisor's table after taking in snapshot `w`: every entry of the
/// same worker name is replaced by it; a new name is appended.
pub open spec fn merge_snapshot_spec(table: Seq<Worker>, w: Worker) -> Seq<Worker> {
    if exists|i: int| 0 <= i < table.len() && table[i].worker_name@ == w.worker_name@ {
        table.map_values(|x: Worker| if x.worker_name@ == w.worker_name@ { w } else { x })
    } else {
        table.push(w)
    }
}

/// Merges snapshot `w` into the supervisor's table of workers.
pub fn merge_snapshot(table: &mut Vec<Worker>, w: Worker)
    ensures
        final(table)@ == merge_snapshot_spec(old(table)@, w),
{
    let ghost orig = table@;
    let mut found = false;
    let mut i: usize = 0;
    while i < table.len()
        invariant
            i <= table@.len(),
            table@.len() == orig.len(),
            forall|j: int|
                0 <= j < i ==> table@[j] == (if orig[j].worker_name@ == w.worker_name@ {
                    w
                } else {
                    orig[j]
                }),
            forall|j: int| i <= j < table@.len() ==> table@[j] == orig[j],
            found <==> exists|j: int| 0 <= j < i && orig[j].worker_name@ == w.worker_name@,
        decreases table@.len() - i,
    {
        let same = table[i].worker_name == w.worker_name;
        assert(same == (orig[i as int].worker_name@ == w.worker_name@));
        if same {
            table.set(i, w.snapshot());
            found = true;
        }
        assert(found <==> exists|j: int| 0 <= j < i + 1 && orig[j].worker_name@ == w.worker_name@) by {
            if same {
                assert(0 <= i < i + 1 && orig[i as int].worker_name@ == w.worker_name@);
            } else {
                if exists|j: int| 0 <= j < i + 1 && orig[j].worker_name@ == w.worker_name@ {
                    let j = choose|j: int| 0 <= j < i + 1 && orig[j].worker_name@ == w.worker_name@;
                    assert(j < i);
                }
            }
        }
        i = i + 1;
    }
    if found {
        assert(table@ =~= orig.map_values(
            |x: Worker| if x.worker_name@ == w.worker_name@ { w } else { x },
        ));
    } else {
        assert(table@ =~= orig);
        table.push(w);
    }
}

} // verus!
