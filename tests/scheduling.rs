use mining_proxy::fee::{FeeRate, FeeScheduler};
use mining_proxy::job_id::{fee_job_id, real_job_id, route_job_id, Upstream};
use mining_proxy::reconnect::{Reconnect, FIRST_DELAY_SECS, MAX_DELAY_SECS};
use mining_proxy::pending::{PendingSubmit, PendingSubmits, SubmitDeadlines, SUBMIT_DEADLINE_SECS};

fn run(rate: FeeRate, n: u64, healthy: bool) -> FeeScheduler {
    let mut s = FeeScheduler::new(rate);
    for _ in 0..n {
        s.next_job_is_fee(healthy);
    }
    s
}

#[test]
fn fee_rate_bounds() {
    assert!(FeeRate::new(1, 2).is_some());
    assert!(FeeRate::new(0, 5).is_some());
    assert!(FeeRate::new(2, 2).is_none());
    assert!(FeeRate::new(3, 2).is_none());
    assert!(FeeRate::new(0, 0).is_none());
    assert_eq!(FeeRate::zero().num, 0);
}

#[test]
fn fee_fraction_within_one_over_n() {
    for (num, den) in [(1u32, 5u32), (1, 2), (3, 100), (7, 9), (1, 50)] {
        let rate = FeeRate::new(num, den).unwrap();
        for n in [100u64, 101, 250, 1000] {
            let s = run(rate, n, true);
            assert_eq!(s.sent_fee + s.sent_real, n);
            let actual = s.sent_fee as f64 / n as f64;
            let target = num as f64 / den as f64;
            assert!((actual - target).abs() <= 1.0 / n as f64, "{num}/{den} after {n}: {actual}");
        }
    }
}

#[test]
fn zero_rate_never_injects() {
    let s = run(FeeRate::zero(), 300, true);
    assert_eq!(s.sent_fee, 0);
    assert_eq!(s.sent_real, 300);
}

#[test]
fn half_rate_alternates_starting_with_fee() {
    let mut s = FeeScheduler::new(FeeRate::new(1, 2).unwrap());
    assert!(s.below_target());
    assert!(s.next_job_is_fee(true));
    assert!(!s.next_job_is_fee(true));
    assert!(s.next_job_is_fee(true));
    assert!(!s.next_job_is_fee(true));
}

#[test]
fn fee_outage_sends_everything_real() {
    let mut s = run(FeeRate::new(1, 5).unwrap(), 50, true);
    let before = s.sent_fee;
    assert_eq!(before, 10);
    for _ in 0..200 {
        assert!(!s.next_job_is_fee(false));
    }
    assert_eq!(s.sent_fee, before);
    assert_eq!(s.sent_real, 40 + 200);
}

#[test]
fn namespaced_ids() {
    assert_eq!(fee_job_id("F1"), "fee:F1");
    assert_eq!(real_job_id("J1"), "J1");
    assert_eq!(real_job_id("0xdeadbeef"), "0xdeadbeef");
    assert_eq!(real_job_id("fee:X"), "real:fee:X");
    assert_eq!(real_job_id("real:Y"), "real:real:Y");
}

#[test]
fn routing_by_prefix() {
    assert_eq!(route_job_id("fee:F1"), Some((Upstream::Fee, "F1".to_string())));
    assert_eq!(route_job_id("J2"), Some((Upstream::Real, "J2".to_string())));
    assert_eq!(route_job_id("real:fee:X"), Some((Upstream::Real, "fee:X".to_string())));
    assert_eq!(route_job_id("fe"), Some((Upstream::Real, "fe".to_string())));
    assert_eq!(route_job_id("fee:"), None);
    assert_eq!(route_job_id("real:"), None);
    assert_eq!(route_job_id(""), None);
}

#[test]
fn fee_prefixed_share_never_goes_real() {
    for id in ["fee:a", "fee:fee:b", "fee:real:c", "fee:"] {
        if let Some((pool, _)) = route_job_id(id) {
            assert_eq!(pool, Upstream::Fee);
        }
    }
}

#[test]
fn ids_round_trip_through_namespaces() {
    for id in ["J1", "fee:X", "real:Y", "abc:def"] {
        assert_eq!(route_job_id(&real_job_id(id)), Some((Upstream::Real, id.to_string())));
        assert_eq!(route_job_id(&fee_job_id(id)), Some((Upstream::Fee, id.to_string())));
    }
}

#[test]
fn pending_submit_answered_once() {
    let mut p = PendingSubmits::new(100);
    let a = p.register(3, Upstream::Real);
    let b = p.register(4, Upstream::Fee);
    assert_eq!(a, 100);
    assert_eq!(b, 101);
    assert_eq!(p.next_id(), 102);
    assert_eq!(p.len(), 2);
    assert_eq!(p.resolve(b), Some(PendingSubmit { worker_id: 4, pool: Upstream::Fee }));
    assert_eq!(p.resolve(b), None);
    assert_eq!(p.resolve(a), Some(PendingSubmit { worker_id: 3, pool: Upstream::Real }));
    assert_eq!(p.resolve(999), None);
    assert_eq!(p.len(), 0);
}

#[test]
fn overdue_submits_leave_oldest_first() {
    let mut d = SubmitDeadlines::new();
    d.track(7, 0);
    d.track(8, 10);
    d.track(9, 25);
    assert_eq!(d.take_overdue(29), Vec::<u64>::new());
    assert_eq!(d.take_overdue(SUBMIT_DEADLINE_SECS), vec![7]);
    assert_eq!(d.take_overdue(45), vec![8]);
    assert_eq!(d.take_overdue(100), vec![9]);
    assert!(d.take_overdue(200).is_empty());
}

#[test]
fn reconnect_backs_off_and_fails_over() {
    let mut r = Reconnect::new(3);
    assert_eq!(r.endpoint(), 0);
    let waits: Vec<u64> = (0..10).map(|_| r.on_failure()).collect();
    assert_eq!(waits, vec![1, 2, 4, 8, 16, 32, 64, 120, 120, 120]);
    assert_eq!(r.endpoint(), 10 % 3);
    r.on_success();
    assert_eq!(r.on_failure(), FIRST_DELAY_SECS);
    assert_eq!(r.endpoint(), 2);
    assert_eq!(r.on_failure(), 2);
    assert_eq!(r.endpoint(), 0);
    assert_eq!(MAX_DELAY_SECS, 120);
}
