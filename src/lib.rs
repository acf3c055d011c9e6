//! Core of a Stratum mining proxy: line framing, bounded job queues, the
//! fee-injection scheduler, job-id namespacing, pending-submit routing,
//! the per-worker session state machine and worker telemetry.
use vstd::prelude::*;
use vstd::string::*;

pub mod config;
pub mod fee;
pub mod framing;
pub mod job_id;
pub mod pending;
pub mod protocol;
pub mod queue;
pub mod reconnect;
pub mod session;
pub mod telemetry;

verus! {

/// `s` without any of its dots.
pub open spec fn without_dots(s: Seq<char>) -> Seq<char> {
    s.filter(|c: char| c != '.')
}

/// Relies on str::replace: every occurrence of `"."` is replaced by the
/// empty string, which drops the dots and keeps every other character in
/// order.
#[verifier::external_body]
fn remove_dots(s: &str) -> (r: String)
    ensures
        r@ == without_dots(s@),
{
    s.replace(".", "")
}

/// The worker name under which the proxy logs into a pool on its own
/// behalf: `worker_` followed by the host name when the machine has one
/// that is valid text, else the version string with its dots removed.
pub fn init(host_name: Option<String>, version: &str) -> (name: String)
    ensures
        match host_name {
            Some(h) => name@ == seq!['w', 'o', 'r', 'k', 'e', 'r', '_'] + h@,
            None => name@ == without_dots(version@),
        },
{
    match host_name {
        Some(h) => {
            proof {
                reveal_strlit("worker_");
            }
            "worker_".to_owned().concat(h.as_str())
        },
        None => remove_dots(version),
    }
}

} // verus!
