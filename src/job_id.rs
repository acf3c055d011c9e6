//! Job-id namespaces. Jobs of the fee pool reach workers under a reserved
//! prefix, so that a share submitted against one can be routed back to the
//! fee pool; real ids that could be mistaken for a namespaced id are
//! escaped under a second prefix.
use vstd::prelude::*;
use vstd::string::*;

verus! {

/// The pool that a job came from and that its shares go to.
#[derive(Clone, Copy, Debug, PartialEq, Eq, Hash, Structural)]
pub enum Upstream {
    Real,
    Fee,
}

pub open spec fn fee_prefix() -> Seq<char> {
    seq!['f', 'e', 'e', ':']
}

pub open spec fn real_prefix() -> Seq<char> {
    seq!['r', 'e', 'a', 'l', ':']
}

pub open spec fn starts_with(s: Seq<char>, p: Seq<char>) -> bool {
    p.len() <= s.len() && s.subrange(0, p.len() as int) == p
}

/// The id under which a real job is shown to a worker.
pub open spec fn real_job_id_spec(id: Seq<char>) -> Seq<char> {
    if starts_with(id, fee_prefix()) || starts_with(id, real_prefix()) {
        real_prefix() + id
    } else {
        id
    }
}

/// The pool and upstream job id that a share submitted under `id` belongs
/// to; `None` for an id that names no job.
pub open spec fn route_spec(id: Seq<char>) -> Option<(Upstream, Seq<char>)> {
    let (pool, rest) = if starts_with(id, fee_prefix()) {
        (Upstream::Fee, id.subrange(fee_prefix().len() as int, id.len() as int))
    } else if starts_with(id, real_prefix()) {
        (Upstream::Real, id.subrange(real_prefix().len() as int, id.len() as int))
    } else {
        (Upstream::Real, id)
    };
    if rest.len() == 0 {
        None
    } else {
        Some((pool, rest))
    }
}

/// Relies on str::strip_prefix: `Some(rest)` exactly when `s` begins with
/// `prefix`, and then `s` is `prefix` followed by `rest`.
#[verifier::external_body]
pub(crate) fn strip_prefix<'a>(s: &'a str, prefix: &str) -> (r: Option<&'a str>)
    ensures
        match r {
            Some(rest) => s@ == prefix@ + rest@,
            None => !starts_with(s@, prefix@),
        },
{
    s.strip_prefix(prefix)
}

proof fn lemma_prefix_split(s: Seq<char>, p: Seq<char>, rest: Seq<char>)
    requires
        s == p + rest,
    ensures
        starts_with(s, p),
        rest == s.subrange(p.len() as int, s.len() as int),
{
    assert(s.subrange(0, p.len() as int) =~= p);
    assert(rest =~= s.subrange(p.len() as int, s.len() as int));
}

/// The id under which a job of the fee pool is shown to a worker.
pub fn fee_job_id(id: &str) -> (r: String)
    ensures
        r@ == fee_prefix() + id@,
{
    proof {
        reveal_strlit("fee:");
        assert("fee:"@ =~= fee_prefix());
    }
    "fee:".to_owned().concat(id)
}

/// The id under which a real job is shown to a worker: unchanged, unless
/// it already starts with a reserved prefix, in which case it is escaped.
pub fn real_job_id(id: &str) -> (r: String)
    ensures
        r@ == real_job_id_spec(id@),
{
    proof {
        reveal_strlit("fee:");
        reveal_strlit("real:");
        assert("fee:"@ =~= fee_prefix());
        assert("real:"@ =~= real_prefix());
    }
    let reserved = match strip_prefix(id, "fee:") {
        Some(rest) => {
            proof { lemma_prefix_split(id@, fee_prefix(), rest@); }
            true
        },
        None => match strip_prefix(id, "real:") {
            Some(rest) => {
                proof { lemma_prefix_split(id@, real_prefix(), rest@); }
                true
            },
            None => false,
        },
    };
    if reserved {
        "real:".to_owned().concat(id)
    } else {
        id.to_owned()
    }
}

/// The pool and upstream job id of a share submitted under `id`, or `None`
/// for a stale share whose id names no job.
pub fn route_job_id(id: &str) -> (r: Option<(Upstream, String)>)
    ensures
        r is Some <==> route_spec(id@) is Some,
        r matches Some((pool, up)) ==> route_spec(id@) == Some((pool, up@)),
{
    proof {
        reveal_strlit("fee:");
        reveal_strlit("real:");
        assert("fee:"@ =~= fee_prefix());
        assert("real:"@ =~= real_prefix());
    }
    let (pool, rest) = match strip_prefix(id, "fee:") {
        Some(rest) => {
            proof { lemma_prefix_split(id@, fee_prefix(), rest@); }
            (Upstream::Fee, rest)
        },
        None => match strip_prefix(id, "real:") {
            Some(rest) => {
                proof { lemma_prefix_split(id@, real_prefix(), rest@); }
                (Upstream::Real, rest)
            },
            None => (Upstream::Real, id),
        },
    };
    if rest.is_empty() {
        None
    } else {
        Some((pool, rest.to_owned()))
    }
}

/// A share whose job id carries the fee prefix is never routed to the
/// real pool.
pub proof fn lemma_fee_shares_never_reach_real_pool(id: Seq<char>)
    requires
        starts_with(id, fee_prefix()),
    ensures
        route_spec(id) is None || route_spec(id).unwrap().0 == Upstream::Fee,
{
}

/// A share for a fee job shown under its namespaced id goes back to the fee
/// pool under the id that pool gave it.
pub proof fn lemma_fee_id_round_trip(id: Seq<char>)
    requires
        id.len() > 0,
    ensures
        route_spec(fee_prefix() + id) == Some((Upstream::Fee, id)),
{
    lemma_prefix_split(fee_prefix() + id, fee_prefix(), id);
}

/// A share for a real job shown under its (possibly escaped) id goes back to
/// the real pool under the id that pool gave it: the namespaces never mix.
pub proof fn lemma_real_id_round_trip(id: Seq<char>)
    requires
        id.len() > 0,
    ensures
        route_spec(real_job_id_spec(id)) == Some((Upstream::Real, id)),
{
    if starts_with(id, fee_prefix()) || starts_with(id, real_prefix()) {
        let s = real_prefix() + id;
        lemma_prefix_split(s, real_prefix(), id);
        assert(s[0] == 'r');
        assert(!starts_with(s, fee_prefix())) by {
            if starts_with(s, fee_prefix()) {
                assert(s.subrange(0, 4)[0] == 'f');
            }
        }
    }
}

} // verus!
