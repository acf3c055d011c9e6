use mining_proxy::framing::{encode_frame, split_frames};
use mining_proxy::queue::{BoundedQueue, JOB_POOL_CAPACITY, MAILBOX_DEPTH};

#[test]
fn split_keeps_complete_lines_only() {
    let data = b"{\"id\":1}\n{\"id\":2}\n{\"id\":3".to_vec();
    let frames = split_frames(&data);
    assert_eq!(frames, vec![b"{\"id\":1}".to_vec(), b"{\"id\":2}".to_vec()]);
}

#[test]
fn split_unterminated_only_is_empty() {
    let frames = split_frames(&b"no newline at eof".to_vec());
    assert!(frames.is_empty());
}

#[test]
fn split_empty_lines_and_empty_input() {
    assert!(split_frames(&Vec::new()).is_empty());
    assert_eq!(split_frames(&b"\n\nx\n".to_vec()), vec![vec![], vec![], b"x".to_vec()]);
}

#[test]
fn encode_then_split_round_trips() {
    let payload = b"{\"id\":null,\"method\":\"mining.notify\"}".to_vec();
    let line = encode_frame(&payload);
    assert_eq!(*line.last().unwrap(), b'\n');
    assert_eq!(line.len(), payload.len() + 1);
    assert_eq!(split_frames(&line), vec![payload]);
}

#[test]
fn job_pool_evicts_first_entries() {
    let mut pool: BoundedQueue<u32> = BoundedQueue::job_pool();
    assert_eq!(pool.capacity(), JOB_POOL_CAPACITY);
    let k: u32 = 5;
    for i in 0..(JOB_POOL_CAPACITY as u32 + k) {
        pool.push(i);
        assert!(pool.len() <= pool.capacity());
    }
    assert_eq!(pool.len(), JOB_POOL_CAPACITY);
    assert_eq!(pool.latest(), Some(&(JOB_POOL_CAPACITY as u32 + k - 1)));
    let mut out = Vec::new();
    while let Some(x) = pool.pop_oldest() {
        out.push(x);
    }
    let expected: Vec<u32> = (k..(JOB_POOL_CAPACITY as u32 + k)).collect();
    assert_eq!(out, expected);
    assert!(pool.is_empty());
}

#[test]
fn pool_below_capacity_keeps_everything() {
    let mut q: BoundedQueue<u32> = BoundedQueue::new(3);
    q.push(1);
    q.push(2);
    assert_eq!(q.len(), 2);
    assert_eq!(q.pop_oldest(), Some(1));
    assert_eq!(q.pop_oldest(), Some(2));
    assert_eq!(q.pop_oldest(), None);
    assert_eq!(q.latest(), None);
}

#[test]
fn full_mailbox_drops_oldest_not_newest() {
    let mut sessions: Vec<BoundedQueue<&str>> = (0..3).map(|_| BoundedQueue::mailbox()).collect();
    for old in ["a", "b", "c", "d", "e", "f", "g", "h"] {
        sessions[1].push(old);
    }
    assert_eq!(sessions[1].len(), MAILBOX_DEPTH);
    for s in sessions.iter_mut() {
        s.push("J1");
    }
    assert_eq!(sessions[0].len(), 1);
    assert_eq!(sessions[2].latest(), Some(&"J1"));
    assert_eq!(sessions[1].len(), MAILBOX_DEPTH);
    assert_eq!(sessions[1].latest(), Some(&"J1"));
    assert_eq!(sessions[1].pop_oldest(), Some("b"));
}
