//! The dispatcher: a fixed list of listeners and the permit pool that bounds
//! how many of their commands run at once.

use vstd::prelude::*;

use crate::dispatch::{decided, dispatch_matches, Decision, Permit, PermitPool, MAX_CONCURRENT_TASKS};
use crate::listener::{pattern_matches, Listener};

verus! {

/// Which of the listeners match the event name, in declaration order.
pub open spec fn matched_spec(ls: Seq<Listener>, name: Seq<char>) -> Seq<bool> {
    Seq::new(ls.len(), |i: int| pattern_matches(ls[i].pattern(), name))
}

/// Listeners that never change once made, and the permits of the tasks that
/// run their commands.
pub struct Dispatcher {
    listeners: Vec<Listener>,
    pool: PermitPool,
}

impl Dispatcher {
    /// The listeners, in declaration order.
    pub closed spec fn listeners_spec(&self) -> Seq<Listener> {
        self.listeners@
    }

    /// The permits of the running tasks.
    pub closed spec fn pool_spec(&self) -> PermitPool {
        self.pool
    }

    /// The permit pool is consistent.
    pub open spec fn wf(&self) -> bool {
        self.pool_spec().wf()
    }

    /// A dispatcher with `MAX_CONCURRENT_TASKS` permits, none of them out.
    pub fn new(listeners: Vec<Listener>) -> (r: Dispatcher)
        ensures
            r.wf(),
            r.listeners_spec() == listeners@,
            r.pool_spec().capacity_spec() == MAX_CONCURRENT_TASKS,
            r.pool_spec().in_use_spec() == 0,
    {
        Dispatcher::with_capacity(listeners, MAX_CONCURRENT_TASKS)
    }

    /// A dispatcher with `capacity` permits, none of them out.
    pub fn with_capacity(listeners: Vec<Listener>, capacity: usize) -> (r: Dispatcher)
        ensures
            r.wf(),
            r.listeners_spec() == listeners@,
            r.pool_spec().capacity_spec() == capacity,
            r.pool_spec().in_use_spec() == 0,
    {
        Dispatcher { listeners, pool: PermitPool::new(capacity) }
    }

    /// The listeners, in declaration order; they never change.
    pub fn listeners(&self) -> (r: &Vec<Listener>)
        ensures
            r@ == self.listeners_spec(),
    {
        &self.listeners
    }

    /// The permit pool.
    pub fn pool(&self) -> (r: &PermitPool)
        ensures
            *r == self.pool_spec(),
    {
        &self.pool
    }

    /// Which listeners match the event name.
    pub fn matching(&self, name: &str) -> (r: Vec<bool>)
        ensures
            r@ == matched_spec(self.listeners_spec(), name@),
    {
        let mut out: Vec<bool> = Vec::new();
        let mut i: usize = 0;
        while i < self.listeners.len()
            invariant
                i <= self.listeners@.len(),
                out@ == matched_spec(self.listeners@, name@).take(i as int),
            decreases self.listeners.len() - i,
        {
            let m = self.listeners[i].matches(name);
            out.push(m);
            assert(out@ =~= matched_spec(self.listeners@, name@).take(i + 1));
            i = i + 1;
        }
        assert(out@ =~= matched_spec(self.listeners@, name@));
        out
    }

    /// Handles one event by name: tests every listener in declaration order
    /// and decides for each whether it is skipped, launched with a permit of
    /// its own, or dropped because no permit is free.
    pub fn on_event(&mut self, name: &str) -> (r: Vec<Decision>)
        requires
            old(self).wf(),
        ensures
            final(self).wf(),
            final(self).listeners_spec() == old(self).listeners_spec(),
            decided(
                old(self).pool_spec(),
                final(self).pool_spec(),
                matched_spec(old(self).listeners_spec(), name@),
                r@,
            ),
    {
        let matched = self.matching(name);
        dispatch_matches(&mut self.pool, &matched)
    }

    /// Hands back the permit of a task that has ended, however it ended.
    pub fn finish(&mut self, p: Permit)
        requires
            old(self).wf(),
            old(self).pool_spec().held().contains(p.id()),
        ensures
            final(self).wf(),
            final(self).listeners_spec() == old(self).listeners_spec(),
            final(self).pool_spec().capacity_spec() == old(self).pool_spec().capacity_spec(),
            final(self).pool_spec().in_use_spec() == old(self).pool_spec().in_use_spec() - 1,
            final(self).pool_spec().held() == old(self).pool_spec().held().remove(p.id()),
    {
        self.pool.release(p);
    }
}

} // verus!
