//! Stratum methods. Workers speak one of two dialects; both are brought to
//! one set of events here.
use crate::job_id::strip_prefix;
use vstd::prelude::*;

verus! {

/// What a worker asks of the proxy.
#[derive(Clone, Copy, Debug, PartialEq, Eq, Structural)]
pub enum WorkerMethod {
    Subscribe,
    Authorize,
    Submit,
    SubmitHashrate,
}

/// What a pool pushes to the proxy.
#[derive(Clone, Copy, Debug, PartialEq, Eq, Structural)]
pub enum PoolMethod {
    Notify,
    SetDifficulty,
}

pub open spec fn worker_method_spec(m: Seq<char>) -> Option<WorkerMethod> {
    if m == "mining.subscribe"@ {
        Some(WorkerMethod::Subscribe)
    } else if m == "mining.authorize"@ || m == "eth_submitLogin"@ {
        Some(WorkerMethod::Authorize)
    } else if m == "mining.submit"@ || m == "eth_submitWork"@ {
        Some(WorkerMethod::Submit)
    } else if m == "mining.submitHashrate"@ || m == "eth_submitHashrate"@ {
        Some(WorkerMethod::SubmitHashrate)
    } else {
        None
    }
}

pub open spec fn pool_method_spec(m: Seq<char>) -> Option<PoolMethod> {
    if m == "mining.notify"@ {
        Some(PoolMethod::Notify)
    } else if m == "mining.set_difficulty"@ {
        Some(PoolMethod::SetDifficulty)
    } else {
        None
    }
}

/// The shape of one decoded line.
#[derive(Clone, Copy, Debug, PartialEq, Eq, Structural)]
pub enum FrameKind {
    /// A request or notification: `method` and `params`.
    Request,
    /// A response: `result` or `error`.
    Response,
    /// Anything else; the connection that sent it is dropped.
    Malformed,
}

pub open spec fn frame_kind_spec(id_ok: bool, has_method: bool, has_params: bool, has_outcome: bool) -> FrameKind {
    if !id_ok {
        FrameKind::Malformed
    } else if has_method && has_params {
        FrameKind::Request
    } else if !has_method && has_outcome {
        FrameKind::Response
    } else {
        FrameKind::Malformed
    }
}

/// Classifies a decoded JSON object by which fields it has: `id_ok` when its
/// `id` is an integer or null, `has_outcome` when it has `result` or `error`.
pub fn frame_kind(id_ok: bool, has_method: bool, has_params: bool, has_outcome: bool) -> (k: FrameKind)
    ensures
        k == frame_kind_spec(id_ok, has_method, has_params, has_outcome),
{
    if !id_ok {
        FrameKind::Malformed
    } else if has_method && has_params {
        FrameKind::Request
    } else if !has_method && has_outcome {
        FrameKind::Response
    } else {
        FrameKind::Malformed
    }
}

/// Whether `s` is exactly `t`.
fn same_text(s: &str, t: &str) -> (r: bool)
    ensures
        r == (s@ == t@),
{
    match strip_prefix(s, t) {
        Some(rest) => {
            if rest.is_empty() {
                assert(s@ =~= t@);
                true
            } else {
                assert(s@.len() > t@.len());
                false
            }
        },
        None => {
            proof {
                if s@ == t@ {
                    assert(s@.subrange(0, t@.len() as int) =~= t@);
                }
            }
            false
        },
    }
}

/// The event a worker's request method stands for, in either dialect;
/// `None` for a method the proxy does not know.
pub fn worker_method(m: &str) -> (r: Option<WorkerMethod>)
    ensures
        r == worker_method_spec(m@),
{
    if same_text(m, "mining.subscribe") {
        Some(WorkerMethod::Subscribe)
    } else if same_text(m, "mining.authorize") || same_text(m, "eth_submitLogin") {
        Some(WorkerMethod::Authorize)
    } else if same_text(m, "mining.submit") || same_text(m, "eth_submitWork") {
        Some(WorkerMethod::Submit)
    } else if same_text(m, "mining.submitHashrate") || same_text(m, "eth_submitHashrate") {
        Some(WorkerMethod::SubmitHashrate)
    } else {
        None
    }
}

/// The event a pool's notification method stands for; `None` for one the
/// proxy does not know.
pub fn pool_method(m: &str) -> (r: Option<PoolMethod>)
    ensures
        r == pool_method_spec(m@),
{
    if same_text(m, "mining.notify") {
        Some(PoolMethod::Notify)
    } else if same_text(m, "mining.set_difficulty") {
        Some(PoolMethod::SetDifficulty)
    } else {
        None
    }
}

} // verus!
