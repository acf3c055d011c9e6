use mining_proxy::config::{parse_endpoint, pool_stream_kind, AddressError, ProxyMode, StreamKind};
use mining_proxy::fee::{FeeRate, FeeScheduler};
use mining_proxy::init;
use mining_proxy::job_id::Upstream;
use mining_proxy::pending::SubmitDeadlines;
use mining_proxy::queue::BoundedQueue;
use mining_proxy::session::{Job, Session, SessionState, SubmitAction};
use mining_proxy::telemetry::{merge_snapshot, SendToParentStruct, Worker};

fn job(id: &str) -> Job {
    Job { job_id: id.to_string(), payload: "\"h\",\"s\",\"t\",true".to_string() }
}

fn authorized(num: u32, den: u32) -> Session {
    let mut s = Session::new(FeeScheduler::new(FeeRate::new(num, den).unwrap()), 1);
    assert!(s.on_subscribe());
    assert_eq!(s.state, SessionState::Subscribed);
    assert!(s.on_authorize("w1".to_string(), "wallet.w1".to_string(), 7));
    assert_eq!(s.state, SessionState::Authorized);
    s
}

#[test]
fn pass_through() {
    let mut s = authorized(0, 1);
    let fee_jobs: BoundedQueue<Job> = BoundedQueue::job_pool();
    let sent = s.on_pool_job(&job("J1"), &fee_jobs, true).unwrap();
    assert_eq!(sent.job_id, "J1");
    assert_eq!(sent.payload, "\"h\",\"s\",\"t\",true");
    assert_eq!(s.state, SessionState::Relaying);
    let (pool, upstream_id, job_id) = match s.on_submit(3, "J1") {
        SubmitAction::Forward { pool, upstream_id, job_id } => (pool, upstream_id, job_id),
        other => panic!("not forwarded: {other:?}"),
    };
    assert_eq!(pool, Upstream::Real);
    assert_eq!(job_id, "J1");
    assert_eq!(s.on_response(upstream_id, true), Some(3));
    assert_eq!(s.on_response(upstream_id, true), None);
    assert_eq!(s.worker.as_ref().unwrap().accepted_shares, 1);
}

#[test]
fn injection() {
    let mut s = authorized(1, 2);
    let mut fee_jobs: BoundedQueue<Job> = BoundedQueue::job_pool();
    fee_jobs.push(job("F1"));
    let first = s.on_pool_job(&job("J1"), &fee_jobs, true).unwrap();
    let second = s.on_pool_job(&job("J2"), &fee_jobs, true).unwrap();
    assert_eq!(first.job_id, "fee:F1");
    assert_eq!(second.job_id, "J2");
    match s.on_submit(10, "fee:F1") {
        SubmitAction::Forward { pool, job_id, .. } => {
            assert_eq!(pool, Upstream::Fee);
            assert_eq!(job_id, "F1");
        }
        other => panic!("not forwarded: {other:?}"),
    }
    match s.on_submit(11, "J2") {
        SubmitAction::Forward { pool, job_id, .. } => {
            assert_eq!(pool, Upstream::Real);
            assert_eq!(job_id, "J2");
        }
        other => panic!("not forwarded: {other:?}"),
    }
}

#[test]
fn fee_outage_fallback() {
    let mut s = authorized(1, 5);
    let mut fee_jobs: BoundedQueue<Job> = BoundedQueue::job_pool();
    fee_jobs.push(job("F1"));
    for i in 0..20 {
        s.on_pool_job(&job(&format!("J{i}")), &fee_jobs, true).unwrap();
    }
    let before = s.scheduler.sent_fee;
    assert!(before > 0);
    for i in 0..200 {
        let id = format!("K{i}");
        let sent = s.on_pool_job(&job(&id), &fee_jobs, false).unwrap();
        assert_eq!(sent.job_id, id);
    }
    assert_eq!(s.scheduler.sent_fee, before);
    assert!(!s.is_closed());
}

#[test]
fn empty_fee_pool_always_real() {
    let mut s = authorized(1, 2);
    let fee_jobs: BoundedQueue<Job> = BoundedQueue::job_pool();
    for i in 0..10 {
        let id = format!("J{i}");
        assert_eq!(s.on_pool_job(&job(&id), &fee_jobs, true).unwrap().job_id, id);
    }
    assert_eq!(s.scheduler.sent_fee, 0);
}

#[test]
fn reconnect_resilience() {
    let mut s = authorized(0, 1);
    let fee_jobs: BoundedQueue<Job> = BoundedQueue::job_pool();
    s.on_pool_job(&job("J5"), &fee_jobs, true).unwrap();
    let upstream_id = match s.on_submit(42, "J5") {
        SubmitAction::Forward { upstream_id, .. } => upstream_id,
        other => panic!("not forwarded: {other:?}"),
    };
    let mut deadlines = SubmitDeadlines::new();
    deadlines.track(upstream_id, 100);
    // the pool connection is lost here; nothing answers the submit
    assert!(deadlines.take_overdue(129).is_empty());
    assert_eq!(deadlines.take_overdue(130), vec![upstream_id]);
    assert_eq!(s.on_deadline(upstream_id), Some(42));
    assert_eq!(s.on_response(upstream_id, true), None);
    assert_eq!(s.worker.as_ref().unwrap().accepted_shares, 0);
    assert_eq!(s.on_pool_job(&job("J6"), &fee_jobs, true).unwrap().job_id, "J6");
    assert_eq!(s.state, SessionState::Relaying);
}

#[test]
fn stale_and_unauthorized_submits() {
    let mut s = Session::new(FeeScheduler::new(FeeRate::zero()), 1);
    assert!(matches!(s.on_submit(1, "J1"), SubmitAction::Unauthorized));
    assert!(s.on_pool_job(&job("J1"), &BoundedQueue::job_pool(), true).is_none());
    assert!(!s.on_authorize(String::new(), String::new(), 0));
    assert_eq!(s.state, SessionState::Handshaking);
    assert!(s.on_authorize("w".to_string(), "l".to_string(), 0));
    assert!(matches!(s.on_submit(2, "fee:"), SubmitAction::Stale));
    assert_eq!(s.pending.len(), 0);
}

#[test]
fn close_emits_final_snapshot() {
    let mut s = authorized(0, 1);
    s.on_hashrate(500, 9);
    let last = s.close().unwrap();
    assert_eq!(last.worker_name, "w1");
    assert_eq!(last.hashrate, 500);
    assert_eq!(last.last_seen_at, 9);
    assert!(s.is_closed());
    assert!(!s.on_subscribe());
}

#[test]
fn telemetry_counts_and_merges() {
    let mut s = authorized(0, 1);
    let fee_jobs: BoundedQueue<Job> = BoundedQueue::job_pool();
    s.on_pool_job(&job("J1"), &fee_jobs, true).unwrap();
    let mut table: Vec<Worker> = Vec::new();
    let mut last_accepted = 0;
    for i in 0..11u64 {
        let id = match s.on_submit(i, "J1") {
            SubmitAction::Forward { upstream_id, .. } => upstream_id,
            other => panic!("not forwarded: {other:?}"),
        };
        assert_eq!(s.on_response(id, i != 5), Some(i));
        let snap = SendToParentStruct { name: "proxy".to_string(), worker: s.worker.as_ref().unwrap().snapshot() };
        assert!(snap.worker.accepted_shares >= last_accepted);
        last_accepted = snap.worker.accepted_shares;
        merge_snapshot(&mut table, snap.worker);
    }
    assert_eq!(table.len(), 1);
    assert_eq!(table[0].accepted_shares, 10);
    assert_eq!(table[0].rejected_shares, 1);
    merge_snapshot(&mut table, Worker::new("w2".to_string(), "l".to_string(), 0));
    assert_eq!(table.len(), 2);
}

#[test]
fn fee_share_counters() {
    let mut w = Worker::new("w".to_string(), "l".to_string(), 0);
    w.record_share(Upstream::Fee, true);
    w.record_share(Upstream::Fee, false);
    w.record_share(Upstream::Fee, false);
    assert_eq!((w.accepted_fee_shares, w.rejected_fee_shares), (1, 2));
    assert_eq!((w.accepted_shares, w.rejected_shares), (0, 0));
    w.accepted_shares = u64::MAX;
    w.record_share(Upstream::Real, true);
    assert_eq!(w.accepted_shares, u64::MAX);
}

#[test]
fn endpoints_and_modes() {
    assert_eq!(parse_endpoint("pool.example:4444"), Ok(("pool.example:4444".to_string(), StreamKind::Tcp)));
    assert_eq!(parse_endpoint("pool.example:443+ssl"), Ok(("pool.example:443".to_string(), StreamKind::Ssl)));
    assert_eq!(parse_endpoint("+ssl"), Err(AddressError::EmptyAddress));
    assert_eq!(pool_stream_kind(&vec![]), Err(AddressError::NoAddress));
    assert_eq!(pool_stream_kind(&vec!["a:1+ssl".to_string(), "b:2".to_string()]), Ok(StreamKind::Ssl));
    assert_eq!(ProxyMode::from_share(0), ProxyMode::PureProxy);
    assert_eq!(ProxyMode::from_share(1), ProxyMode::FeeInjection);
    assert_eq!(ProxyMode::from_share(2), ProxyMode::UnifiedWallet);
}

#[test]
fn proxy_worker_name() {
    assert_eq!(init(Some("rig7".to_string()), "0.2.1"), "worker_rig7");
    assert_eq!(init(None, "0.2.1"), "021");
}

#[test]
fn hashrate_sums_recent_reports() {
    let mut s = authorized(0, 1);
    for i in 1..=9u64 {
        s.on_hashrate(100 * i, i);
    }
    // the first report has left the window of eight
    assert_eq!(s.worker.as_ref().unwrap().hashrate, (2..=9u64).map(|i| 100 * i).sum::<u64>());
    assert_eq!(s.worker.as_ref().unwrap().last_seen_at, 9);
    s.on_hashrate(u64::MAX, 10);
    assert_eq!(s.worker.as_ref().unwrap().hashrate, u64::MAX);
}
