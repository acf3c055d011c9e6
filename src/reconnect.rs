//! When and where a pool client reconnects: the endpoints of its list are
//! tried in order, with a delay that doubles after each failure up to a cap
//! and starts over after a successful login.
use vstd::prelude::*;

verus! {

/// The first delay after a failure, in seconds.
pub const FIRST_DELAY_SECS: u64 = 1;

/// The longest delay between two attempts, in seconds.
pub const MAX_DELAY_SECS: u64 = 120;

pub struct Reconnect {
    delay_secs: u64,
    endpoint: usize,
    endpoints: usize,
}

impl Reconnect {
    pub closed spec fn spec_delay(&self) -> u64 {
        self.delay_secs
    }

    pub closed spec fn spec_endpoint(&self) -> usize {
        self.endpoint
    }

    pub closed spec fn spec_endpoints(&self) -> usize {
        self.endpoints
    }

    pub open spec fn wf(&self) -> bool {
        &&& self.spec_endpoint() < self.spec_endpoints()
        &&& FIRST_DELAY_SECS <= self.spec_delay() <= MAX_DELAY_SECS
    }

    /// Starts at the first of `endpoints` entries with the shortest delay.
    pub fn new(endpoints: usize) -> (r: Reconnect)
        requires
            endpoints > 0,
        ensures
            r.wf(),
            r.spec_endpoint() == 0,
            r.spec_endpoints() == endpoints,
            r.spec_delay() == FIRST_DELAY_SECS,
    {
        Reconnect { delay_secs: FIRST_DELAY_SECS, endpoint: 0, endpoints }
    }

    /// The position in the list of the endpoint to try next.
    pub fn endpoint(&self) -> (r: usize)
        ensures
            r == self.spec_endpoint(),
    {
        self.endpoint
    }

    /// A login succeeded: the next failure waits the shortest delay again.
    pub fn on_success(&mut self)
        requires
            old(self).wf(),
        ensures
            final(self).wf(),
            final(self).spec_delay() == FIRST_DELAY_SECS,
            final(self).spec_endpoint() == old(self).spec_endpoint(),
            final(self).spec_endpoints() == old(self).spec_endpoints(),
    {
        self.delay_secs = FIRST_DELAY_SECS;
    }

    /// A connection failed or was lost: returns how many seconds to wait,
    /// moves on to the next endpoint (after the last comes the first) and
    /// doubles the next delay, up to the cap.
    pub fn on_failure(&mut self) -> (wait_secs: u64)
        requires
            old(self).wf(),
        ensures
            final(self).wf(),
            wait_secs == old(self).spec_delay(),
            final(self).spec_delay() == if 2 * old(self).spec_delay() > MAX_DELAY_SECS {
                MAX_DELAY_SECS as int
            } else {
                2 * old(self).spec_delay()
            },
            final(self).spec_endpoints() == old(self).spec_endpoints(),
            final(self).spec_endpoint() == (old(self).spec_endpoint() + 1) % (old(
                self,
            ).spec_endpoints() as int),
    {
        let wait = self.delay_secs;
        self.delay_secs = if 2 * wait > MAX_DELAY_SECS {
            MAX_DELAY_SECS
        } else {
            2 * wait
        };
        self.endpoint = if self.endpoint + 1 == self.endpoints {
            0
        } else {
            self.endpoint + 1
        };
        proof {
            let e = old(self).spec_endpoint() as int;
            let n = old(self).spec_endpoints() as int;
            if e + 1 == n {
                vstd::arithmetic::div_mod::lemma_mod_self_0(n);
            } else {
                vstd::arithmetic::div_mod::lemma_small_mod((e + 1) as nat, n as nat);
            }
        }
        wait
    }
}

} // verus!
