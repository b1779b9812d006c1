//! Bounded admission of command tasks: a fixed pool of permits, taken
//! without waiting, and the per-event decision of which listeners launch.

use vstd::prelude::*;

verus! {

/// How many command tasks may run at once.
pub const MAX_CONCURRENT_TASKS: usize = 8;

/// How long, in seconds, a task waits for its command before giving up.
pub const COMMAND_TIMEOUT_SECS: u64 = 5;

/// One unit of task capacity, held for the whole life of one task and handed
/// back to its pool when the task ends.
pub struct Permit {
    id: Ghost<nat>,
}

impl Permit {
    /// Tells this permit apart from every other permit of its pool.
    pub closed spec fn id(&self) -> nat {
        self.id@
    }
}

/// A fixed number of permits, of which some are held by running tasks.
pub struct PermitPool {
    capacity: usize,
    in_use: usize,
    issued: Ghost<nat>,
    held: Ghost<Set<nat>>,
}

impl PermitPool {
    /// How many permits the pool has in all.
    pub closed spec fn capacity_spec(&self) -> nat {
        self.capacity as nat
    }

    /// How many permits are out.
    pub closed spec fn in_use_spec(&self) -> nat {
        self.in_use as nat
    }

    /// The ids of the permits that are out and not yet handed back.
    pub closed spec fn held(&self) -> Set<nat> {
        self.held@
    }

    /// How many permits are free.
    pub open spec fn available_spec(&self) -> nat {
        (self.capacity_spec() - self.in_use_spec()) as nat
    }

    /// No more permits are out than the pool has, and each is counted once.
    pub closed spec fn wf(&self) -> bool {
        &&& self.in_use <= self.capacity
        &&& self.held@.finite()
        &&& self.held@.len() == self.in_use
        &&& forall|id: nat| #[trigger] self.held@.contains(id) ==> id < self.issued@
    }

    /// A pool of `capacity` permits, none of them out.
    pub fn new(capacity: usize) -> (r: PermitPool)
        ensures
            r.wf(),
            r.capacity_spec() == capacity,
            r.in_use_spec() == 0,
            r.held() == Set::<nat>::empty(),
    {
        PermitPool { capacity, in_use: 0, issued: Ghost(0), held: Ghost(Set::empty()) }
    }

    /// How many permits the pool has in all.
    pub fn capacity(&self) -> (r: usize)
        ensures
            r == self.capacity_spec(),
    {
        self.capacity
    }

    /// How many permits are out.
    pub fn in_use(&self) -> (r: usize)
        ensures
            r == self.in_use_spec(),
    {
        self.in_use
    }

    /// How many permits can still be taken.
    pub fn available(&self) -> (r: usize)
        requires
            self.wf(),
        ensures
            r == self.available_spec(),
    {
        self.capacity - self.in_use
    }

    /// Takes a permit if one is free, and otherwise returns `None` at once.
    pub fn try_acquire(&mut self) -> (r: Option<Permit>)
        requires
            old(self).wf(),
        ensures
            final(self).wf(),
            final(self).capacity_spec() == old(self).capacity_spec(),
            r is Some <==> old(self).in_use_spec() < old(self).capacity_spec(),
            match r {
                Some(p) => {
                    &&& final(self).in_use_spec() == old(self).in_use_spec() + 1
                    &&& !old(self).held().contains(p.id())
                    &&& final(self).held() == old(self).held().insert(p.id())
                },
                None => {
                    &&& final(self).in_use_spec() == old(self).in_use_spec()
                    &&& final(self).held() == old(self).held()
                },
            },
    {
        if self.in_use < self.capacity {
            let ghost id = self.issued@;
            proof {
                assert(!self.held@.contains(id));
            }
            self.in_use = self.in_use + 1;
            self.held = Ghost(self.held@.insert(id));
            self.issued = Ghost(id + 1);
            Some(Permit { id: Ghost(id) })
        } else {
            None
        }
    }

    /// Hands back a permit that is out; it can never be handed back again.
    pub fn release(&mut self, p: Permit)
        requires
            old(self).wf(),
            old(self).held().contains(p.id()),
        ensures
            final(self).wf(),
            final(self).capacity_spec() == old(self).capacity_spec(),
            final(self).in_use_spec() == old(self).in_use_spec() - 1,
            final(self).held() == old(self).held().remove(p.id()),
            !final(self).held().contains(p.id()),
    {
        self.in_use = self.in_use - 1;
        self.held = Ghost(self.held@.remove(p.id@));
    }
}

/// However the pool was used, no more permits are out than it has.
pub proof fn lemma_within_capacity(pool: &PermitPool)
    requires
        pool.wf(),
    ensures
        pool.in_use_spec() <= pool.capacity_spec(),
        pool.held().len() == pool.in_use_spec(),
{
}


/// What becomes of one listener for one event.
pub enum Decision {
    /// The listener's pattern does not match the event.
    Skip,
    /// The listener matches and its command is launched, holding this permit.
    Launch(Permit),
    /// The listener matches but no permit is free: the event is dropped for it.
    Drop,
}

/// How many entries of `s` are `true`.
pub open spec fn count_true(s: Seq<bool>) -> nat
    decreases s.len(),
{
    if s.len() == 0 {
        0
    } else {
        count_true(s.drop_last()) + if s.last() {
            1nat
        } else {
            0nat
        }
    }
}

/// Whether listener `i` launches, when `available` permits are free and
/// `matched` tells which listeners match: the earlier matches take the
/// permits first.
pub open spec fn launches(available: nat, matched: Seq<bool>, i: int) -> bool {
    matched[i] && count_true(matched.take(i)) < available
}

/// The smaller of two numbers.
pub open spec fn min_nat(a: nat, b: nat) -> nat {
    if a <= b {
        a
    } else {
        b
    }
}

/// What handling one event does, given which listeners match: `r` holds
/// one decision per listener, the earlier matches take the free permits,
/// the later ones are dropped, and each launched task holds a fresh permit
/// of its own.
pub open spec fn decided(
    before: PermitPool,
    after: PermitPool,
    matched: Seq<bool>,
    r: Seq<Decision>,
) -> bool {
    &&& after.wf()
    &&& after.capacity_spec() == before.capacity_spec()
    &&& after.in_use_spec() == before.in_use_spec() + min_nat(
        before.available_spec(),
        count_true(matched),
    )
    &&& r.len() == matched.len()
    &&& forall|i: int|
        0 <= i < r.len() ==> {
            &&& (#[trigger] r[i] is Skip <==> !matched[i])
            &&& (r[i] is Launch <==> launches(before.available_spec(), matched, i))
            &&& (r[i] is Drop <==> matched[i] && !launches(before.available_spec(), matched, i))
        }
    &&& forall|i: int|
        0 <= i < r.len() && #[trigger] r[i] is Launch ==> {
            &&& after.held().contains(r[i]->Launch_0.id())
            &&& !before.held().contains(r[i]->Launch_0.id())
        }
    &&& forall|i: int, j: int|
        0 <= i < j < r.len() && #[trigger] r[i] is Launch && #[trigger] r[j] is Launch
            ==> r[i]->Launch_0.id() != r[j]->Launch_0.id()
    &&& forall|id: nat|
        #[trigger] after.held().contains(id) ==> before.held().contains(id) || exists|i: int|
            0 <= i < r.len() && #[trigger] r[i] is Launch && r[i]->Launch_0.id() == id
}

/// Decides, listener by listener in declaration order, what becomes of one
/// event: listeners that do not match are skipped, a matching listener takes
/// a free permit and launches, and one that finds no permit free is dropped
/// at once, without waiting.
pub fn dispatch_matches(pool: &mut PermitPool, matched: &Vec<bool>) -> (r: Vec<Decision>)
    requires
        old(pool).wf(),
    ensures
        decided(*old(pool), *final(pool), matched@, r@),
{
    let ghost avail = old(pool).available_spec();
    let ghost start = *old(pool);
    let mut out: Vec<Decision> = Vec::new();
    let mut i: usize = 0;
    while i < matched.len()
        invariant
            i <= matched@.len(),
            out@.len() == i,
            pool.wf(),
            pool.capacity_spec() == start.capacity_spec(),
            avail == start.available_spec(),
            start.wf(),
            start.held().subset_of(pool.held()),
            pool.in_use_spec() == start.in_use_spec() + min_nat(
                avail,
                count_true(matched@.take(i as int)),
            ),
            forall|k: int|
                0 <= k < i ==> {
                    &&& (#[trigger] out@[k] is Skip <==> !matched@[k])
                    &&& (out@[k] is Launch <==> launches(avail, matched@, k))
                    &&& (out@[k] is Drop <==> matched@[k] && !launches(avail, matched@, k))
                },
            forall|k: int|
                0 <= k < i && #[trigger] out@[k] is Launch ==> {
                    &&& pool.held().contains(out@[k]->Launch_0.id())
                    &&& !start.held().contains(out@[k]->Launch_0.id())
                },
            forall|k: int, j: int|
                0 <= k < j < i && #[trigger] out@[k] is Launch && #[trigger] out@[j] is Launch
                    ==> out@[k]->Launch_0.id() != out@[j]->Launch_0.id(),
            forall|id: nat|
                #[trigger] pool.held().contains(id) ==> start.held().contains(id) || exists|
                    k: int,
                |
                    0 <= k < i && #[trigger] out@[k] is Launch && out@[k]->Launch_0.id() == id,
        decreases matched.len() - i,
    {
        let ghost before = *pool;
        let ghost prev = out@;
        assert(matched@.take(i + 1).drop_last() =~= matched@.take(i as int));
        assert(matched@.take(i + 1).last() == matched@[i as int]);
        if matched[i] {
            match pool.try_acquire() {
                Some(p) => {
                    out.push(Decision::Launch(p));
                },
                None => {
                    out.push(Decision::Drop);
                },
            }
        } else {
            out.push(Decision::Skip);
        }
        assert forall|k: int| 0 <= k < i implies out@[k] == prev[k] by {}
        assert forall|id: nat| #[trigger] pool.held().contains(id) implies start.held().contains(id)
            || exists|k: int|
            0 <= k < i + 1 && #[trigger] out@[k] is Launch && out@[k]->Launch_0.id() == id by {
            if !before.held().contains(id) {
                assert(out@[i as int] is Launch && out@[i as int]->Launch_0.id() == id);
            } else if !start.held().contains(id) {
                let k = choose|k: int|
                    0 <= k < i && #[trigger] prev[k] is Launch && prev[k]->Launch_0.id() == id;
                assert(out@[k] == prev[k]);
            }
        }
        i = i + 1;
    }
    assert(matched@.take(i as int) =~= matched@);
    out
}


/// When no permit is free, every matching listener is dropped for the event,
/// nothing is launched and no permit is taken: handling the event never waits
/// for capacity.
pub proof fn lemma_full_pool_drops(
    before: PermitPool,
    after: PermitPool,
    matched: Seq<bool>,
    r: Seq<Decision>,
)
    requires
        decided(before, after, matched, r),
        before.available_spec() == 0,
    ensures
        forall|i: int| 0 <= i < r.len() && matched[i] ==> #[trigger] r[i] is Drop,
        forall|i: int| 0 <= i < r.len() ==> !(#[trigger] r[i] is Launch),
        after.in_use_spec() == before.in_use_spec(),
{
    assert forall|i: int| 0 <= i < r.len() && matched[i] implies #[trigger] r[i] is Drop by {
        assert(!launches(before.available_spec(), matched, i));
    }
}


/// Handing a permit back retires it: its id is no longer out, so the same
/// permit cannot be handed back a second time, and exactly one unit of
/// capacity comes back.
pub proof fn lemma_released_once(before: PermitPool, after: PermitPool, p: Permit)
    requires
        before.wf(),
        before.held().contains(p.id()),
        after.wf(),
        after.held() == before.held().remove(p.id()),
    ensures
        !after.held().contains(p.id()),
        after.in_use_spec() == before.in_use_spec() - 1,
{
    lemma_within_capacity(&before);
    lemma_within_capacity(&after);
}

} // verus!
