//! A bounded FIFO queue that never blocks its producer: pushing onto a
//! full queue first evicts the oldest entry. Used for the pools of recent
//! upstream jobs and for each session's lossy job mailbox.
use std::collections::VecDeque;
use vstd::prelude::*;

verus! {

/// Capacity of a pool of recent upstream jobs.
pub const JOB_POOL_CAPACITY: usize = 64;

/// Depth of a session's job mailbox.
pub const MAILBOX_DEPTH: usize = 8;

/// The queue after pushing `x` onto `q` with room for `cap` entries.
pub open spec fn push_evicting<T>(q: Seq<T>, cap: nat, x: T) -> Seq<T> {
    if q.len() < cap {
        q.push(x)
    } else {
        q.drop_first().push(x)
    }
}

/// The queue after pushing each of `xs` in turn onto `q`.
pub open spec fn push_all<T>(q: Seq<T>, cap: nat, xs: Seq<T>) -> Seq<T>
    decreases xs.len(),
{
    if xs.len() == 0 {
        q
    } else {
        push_evicting(push_all(q, cap, xs.drop_last()), cap, xs.last())
    }
}

pub struct BoundedQueue<T> {
    items: VecDeque<T>,
    capacity: usize,
}

impl<T> View for BoundedQueue<T> {
    type V = Seq<T>;

    open spec fn view(&self) -> Seq<T> {
        self.spec_items()
    }
}

impl<T> BoundedQueue<T> {
    pub closed spec fn spec_items(&self) -> Seq<T> {
        self.items@
    }

    pub closed spec fn spec_capacity(&self) -> nat {
        self.capacity as nat
    }

    /// Never more entries than the capacity, and room for at least one.
    pub open spec fn wf(&self) -> bool {
        &&& 0 < self.spec_capacity()
        &&& self@.len() <= self.spec_capacity()
        &&& self.spec_capacity() <= usize::MAX
    }

    /// An empty queue with room for `capacity` entries.
    pub fn new(capacity: usize) -> (q: Self)
        requires
            capacity > 0,
        ensures
            q.wf(),
            q@ == Seq::<T>::empty(),
            q.spec_capacity() == capacity,
    {
        BoundedQueue { items: VecDeque::new(), capacity }
    }

    /// An empty pool of recent upstream jobs.
    pub fn job_pool() -> (q: Self)
        ensures
            q.wf(),
            q@ == Seq::<T>::empty(),
            q.spec_capacity() == JOB_POOL_CAPACITY,
    {
        Self::new(JOB_POOL_CAPACITY)
    }

    /// An empty job mailbox of a worker session.
    pub fn mailbox() -> (q: Self)
        ensures
            q.wf(),
            q@ == Seq::<T>::empty(),
            q.spec_capacity() == MAILBOX_DEPTH,
    {
        Self::new(MAILBOX_DEPTH)
    }

    pub fn capacity(&self) -> (r: usize)
        ensures
            r == self.spec_capacity(),
    {
        self.capacity
    }

    pub fn len(&self) -> (r: usize)
        ensures
            r == self@.len(),
    {
        self.items.len()
    }

    pub fn is_empty(&self) -> (r: bool)
        ensures
            r == (self@.len() == 0),
    {
        self.items.len() == 0
    }

    /// The entry at position `i`, counting from the oldest.
    pub fn get(&self, i: usize) -> (r: &T)
        requires
            i < self@.len(),
        ensures
            *r == self@[i as int],
    {
        &self.items[i]
    }

    /// Appends `x` as the newest entry; when the queue is full the oldest
    /// entry is evicted first.
    pub fn push(&mut self, x: T)
        requires
            old(self).wf(),
        ensures
            final(self).wf(),
            final(self).spec_capacity() == old(self).spec_capacity(),
            final(self)@ == push_evicting(old(self)@, old(self).spec_capacity(), x),
    {
        if self.items.len() >= self.capacity {
            let _ = self.items.pop_front();
        }
        self.items.push_back(x);
    }

    /// Removes and returns the oldest entry.
    pub fn pop_oldest(&mut self) -> (r: Option<T>)
        requires
            old(self).wf(),
        ensures
            final(self).wf(),
            final(self).spec_capacity() == old(self).spec_capacity(),
            old(self)@.len() == 0 ==> r is None && final(self)@ == old(self)@,
            old(self)@.len() > 0 ==> r == Some(old(self)@[0]) && final(self)@ == old(self)@.drop_first(),
    {
        let r = self.items.pop_front();
        proof {
            if old(self)@.len() > 0 {
                assert(self@ =~= old(self)@.drop_first());
            }
        }
        r
    }

    /// The newest entry, if any.
    pub fn latest(&self) -> (r: Option<&T>)
        ensures
            self@.len() == 0 ==> r is None,
            self@.len() > 0 ==> r == Some(&self@.last()),
    {
        let n = self.items.len();
        if n == 0 {
            None
        } else {
            Some(&self.items[n - 1])
        }
    }
}

/// A pool never holds more than its capacity, and after `capacity + k`
/// pushes onto an empty pool the first `k` pushed entries are gone: exactly
/// the last `capacity` entries remain, oldest first.
pub proof fn lemma_pool_keeps_newest<T>(cap: nat, xs: Seq<T>)
    requires
        cap > 0,
    ensures
        push_all(Seq::<T>::empty(), cap, xs).len() <= cap,
        xs.len() >= cap ==> push_all(Seq::<T>::empty(), cap, xs) == xs.subrange(
            xs.len() - cap,
            xs.len() as int,
        ),
        xs.len() < cap ==> push_all(Seq::<T>::empty(), cap, xs) == xs,
    decreases xs.len(),
{
    if xs.len() > 0 {
        let ys = xs.drop_last();
        lemma_pool_keeps_newest(cap, ys);
        let q = push_all(Seq::<T>::empty(), cap, ys);
        if ys.len() >= cap {
            assert(q.drop_first().push(xs.last()) =~= xs.subrange(xs.len() - cap, xs.len() as int));
        } else {
            assert(q.push(xs.last()) =~= xs);
            if xs.len() >= cap {
                assert(xs.subrange(xs.len() - cap, xs.len() as int) =~= xs);
            }
        }
    } else {
        assert(xs =~= Seq::<T>::empty());
    }
}

/// Pushing a job onto a full mailbox evicts the oldest queued job, never the
/// one just pushed.
pub proof fn lemma_full_mailbox_drops_oldest<T>(q: Seq<T>, cap: nat, x: T)
    requires
        cap > 0,
        q.len() == cap,
    ensures
        push_evicting(q, cap, x) == q.subrange(1, q.len() as int).push(x),
        push_evicting(q, cap, x).last() == x,
{
    assert(q.drop_first() =~= q.subrange(1, q.len() as int));
}

} // verus!
