//! The fee-injection scheduler: on each real job about to be sent to a
//! worker it decides whether to send a job of the fee pool instead, so that
//! the share of fee jobs follows a target ratio.
use vstd::prelude::*;

verus! {

/// A target fee ratio `num / den`, in `[0, 1)`.
#[derive(Clone, Copy, Debug, PartialEq, Eq, Structural)]
pub struct FeeRate {
    pub num: u32,
    pub den: u32,
}

impl FeeRate {
    pub open spec fn wf(&self) -> bool {
        self.den > 0 && self.num < self.den
    }

    /// The ratio `num / den`, or `None` unless `0 <= num / den < 1`.
    pub fn new(num: u32, den: u32) -> (r: Option<FeeRate>)
        ensures
            r is Some <==> (den > 0 && num < den),
            r matches Some(f) ==> f.wf() && f.num == num && f.den == den,
    {
        if den > 0 && num < den {
            Some(FeeRate { num, den })
        } else {
            None
        }
    }

    /// The rate that never diverts a job.
    pub fn zero() -> (r: FeeRate)
        ensures
            r.wf(),
            r.num == 0,
    {
        FeeRate { num: 0, den: 1 }
    }
}

/// The fee fraction actually sent so far, counting the job about to be
/// sent as real, lies below the target: `fee / (fee + real + 1) < num / den`.
pub open spec fn below_target(rate: FeeRate, sent_fee: nat, sent_real: nat) -> bool {
    sent_fee * rate.den < rate.num * (sent_fee + sent_real + 1)
}

/// Whether the next job goes out as a fee job.
pub open spec fn injects(rate: FeeRate, sent_fee: nat, sent_real: nat, fee_available: bool) -> bool {
    fee_available && below_target(rate, sent_fee, sent_real)
}

/// Fee jobs sent after `n` decisions from zero counters while the fee pool
/// always had a job to offer.
pub open spec fn fee_after(rate: FeeRate, n: nat) -> nat
    decreases n,
{
    if n == 0 {
        0
    } else {
        let f = fee_after(rate, (n - 1) as nat);
        if injects(rate, f, (n - 1 - f) as nat, true) {
            f + 1
        } else {
            f
        }
    }
}

/// Per-session counters of jobs sent to the worker, by kind.
#[derive(Clone, Copy, Debug, PartialEq, Eq, Structural)]
pub struct FeeScheduler {
    pub rate: FeeRate,
    pub sent_fee: u64,
    pub sent_real: u64,
}

impl FeeScheduler {
    pub open spec fn wf(&self) -> bool {
        self.rate.wf()
    }

    pub fn new(rate: FeeRate) -> (s: FeeScheduler)
        requires
            rate.wf(),
        ensures
            s.wf(),
            s.rate == rate,
            s.sent_fee == 0,
            s.sent_real == 0,
    {
        FeeScheduler { rate, sent_fee: 0, sent_real: 0 }
    }

    /// Whether the next job would be a fee job if the fee pool has one.
    pub fn below_target(&self) -> (r: bool)
        requires
            self.wf(),
        ensures
            r == below_target(self.rate, self.sent_fee as nat, self.sent_real as nat),
    {
        let fee = self.sent_fee as u128;
        let total = self.sent_fee as u128 + self.sent_real as u128 + 1;
        proof {
            assert(fee * (self.rate.den as u128) <= 0xffff_ffff_ffff_ffff * 0xffff_ffff) by (nonlinear_arith)
                requires fee <= 0xffff_ffff_ffff_ffff, self.rate.den <= 0xffff_ffff;
            assert((self.rate.num as u128) * total <= 0xffff_ffff * 0x2_0000_0000_0000_0000) by (nonlinear_arith)
                requires total <= 0x2_0000_0000_0000_0000, self.rate.num <= 0xffff_ffff;
        }
        fee * (self.rate.den as u128) < (self.rate.num as u128) * total
    }

    /// Decides the next job: `true` for a fee job, `false` for the real one,
    /// and counts it. With no fee job available the real job is sent and the
    /// fee count stays as it was.
    pub fn next_job_is_fee(&mut self, fee_available: bool) -> (fee: bool)
        requires
            old(self).wf(),
            old(self).sent_fee + old(self).sent_real < u64::MAX,
        ensures
            final(self).wf(),
            final(self).rate == old(self).rate,
            fee == injects(old(self).rate, old(self).sent_fee as nat, old(self).sent_real as nat, fee_available),
            fee ==> final(self).sent_fee == old(self).sent_fee + 1 && final(self).sent_real == old(self).sent_real,
            !fee ==> final(self).sent_fee == old(self).sent_fee && final(self).sent_real == old(self).sent_real + 1,
    {
        if fee_available && self.below_target() {
            self.sent_fee = self.sent_fee + 1;
            true
        } else {
            self.sent_real = self.sent_real + 1;
            false
        }
    }
}

/// A session's counters follow `fee_after`: starting from zero counters,
/// each decision made while the fee pool offers a job keeps the fee count
/// equal to `fee_after` of the number of jobs sent, so the bounds above
/// hold of the scheduler itself.
pub proof fn lemma_healthy_decision_follows_fee_after(
    rate: FeeRate,
    sent_fee: nat,
    sent_real: nat,
)
    requires
        sent_fee == fee_after(rate, sent_fee + sent_real),
    ensures
        ({
            let fee = injects(rate, sent_fee, sent_real, true);
            let (f, r) = if fee {
                (sent_fee + 1, sent_real)
            } else {
                (sent_fee, sent_real + 1)
            };
            f == fee_after(rate, f + r)
        }),
{
    let n = sent_fee + sent_real;
    assert((n + 1 - 1) as nat == n);
    assert((n - sent_fee) as nat == sent_real);
}

/// With a healthy fee pool the share of fee jobs tracks the target: after
/// `n` jobs the fee count differs from `n * num / den` by less than one job,
/// so the fee fraction is within `1/n` of the rate.
pub proof fn lemma_fee_ratio_tracks_rate(rate: FeeRate, n: nat)
    requires
        rate.wf(),
    ensures
        fee_after(rate, n) <= n,
        fee_after(rate, n) * rate.den < rate.num * n + rate.den,
        rate.num * n < fee_after(rate, n) * rate.den + rate.den,
    decreases n,
{
    if n > 0 {
        let m = (n - 1) as nat;
        lemma_fee_ratio_tracks_rate(rate, m);
        let f = fee_after(rate, m);
        let num = rate.num as int;
        let den = rate.den as int;
        assert(f + (m - f) + 1 == n);
        if below_target(rate, f, (m - f) as nat) {
            assert(f * den < num * n);
            assert((f + 1) * den == f * den + den) by (nonlinear_arith);
            assert(num * n == num * m + num) by (nonlinear_arith)
                requires n == m + 1;
        } else {
            assert(f * den >= num * n);
            assert(num * n == num * m + num) by (nonlinear_arith)
                requires n == m + 1;
        }
    }
}

/// For one session, after `n >= 1` jobs with a healthy fee pool,
/// `|fee / n - num / den| < 1 / n`, written without division.
pub proof fn lemma_fee_fraction_within_one_over_n(rate: FeeRate, n: nat)
    requires
        rate.wf(),
        n >= 1,
    ensures
        ({
            let f = fee_after(rate, n) as int;
            let d = f * rate.den * n - rate.num * n * n;
            -(rate.den * n) < d < rate.den * n
        }),
{
    lemma_fee_ratio_tracks_rate(rate, n);
    let f = fee_after(rate, n) as int;
    let num = rate.num as int;
    let den = rate.den as int;
    let ni = n as int;
    assert(f * den < num * ni + den);
    assert(num * ni < f * den + den);
    assert((f * den) * ni < (num * ni + den) * ni) by (nonlinear_arith)
        requires f * den < num * ni + den, ni >= 1;
    assert((num * ni) * ni < (f * den + den) * ni) by (nonlinear_arith)
        requires num * ni < f * den + den, ni >= 1;
    assert(f * den * ni == (f * den) * ni) by (nonlinear_arith);
    assert(num * ni * ni == (num * ni) * ni) by (nonlinear_arith);
    assert((num * ni + den) * ni == num * ni * ni + den * ni) by (nonlinear_arith);
    assert((f * den + den) * ni == f * den * ni + den * ni) by (nonlinear_arith);
}

} // verus!
