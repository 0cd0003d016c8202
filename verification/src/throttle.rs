//! The admission throttle: a pool of permits that bounds how many metadata
//! fetches are in flight at once.

use vstd::prelude::*;

verus! {

/// The mathematical value of a [`Throttle`]: how many permits it holds in
/// all, and how many of them are out.
pub struct PoolState {
    pub capacity: nat,
    pub held: nat,
}

/// What can be asked of a pool.
pub enum PoolOp {
    /// Ask for a permit.
    Acquire,
    /// Hand a permit back.
    Release,
}

/// Whether a pool in state `s` grants what `op` asks for: a permit where one
/// is free, a return where one is out.
pub open spec fn granted(s: PoolState, op: PoolOp) -> bool {
    match op {
        PoolOp::Acquire => s.held < s.capacity,
        PoolOp::Release => s.held > 0,
    }
}

/// The state of a pool after `op`. What is not granted changes nothing.
pub open spec fn step(s: PoolState, op: PoolOp) -> PoolState {
    if granted(s, op) {
        match op {
            PoolOp::Acquire => PoolState { capacity: s.capacity, held: s.held + 1 },
            PoolOp::Release => PoolState { capacity: s.capacity, held: (s.held - 1) as nat },
        }
    } else {
        s
    }
}

/// The state of a pool after a run of operations.
pub open spec fn run(s: PoolState, ops: Seq<PoolOp>) -> PoolState
    decreases ops.len(),
{
    if ops.len() == 0 {
        s
    } else {
        step(run(s, ops.drop_last()), ops.last())
    }
}

/// How many permits a run of operations hands out.
pub open spec fn issued(s: PoolState, ops: Seq<PoolOp>) -> nat
    decreases ops.len(),
{
    if ops.len() == 0 {
        0
    } else {
        let before = run(s, ops.drop_last());
        issued(s, ops.drop_last()) + if ops.last() is Acquire && granted(before, ops.last()) {
            1nat
        } else {
            0nat
        }
    }
}

/// How many permits a run of operations takes back.
pub open spec fn returned(s: PoolState, ops: Seq<PoolOp>) -> nat
    decreases ops.len(),
{
    if ops.len() == 0 {
        0
    } else {
        let before = run(s, ops.drop_last());
        returned(s, ops.drop_last()) + if ops.last() is Release && granted(before, ops.last()) {
            1nat
        } else {
            0nat
        }
    }
}

/// Whatever is asked of a pool, and in whatever order, it never has more
/// permits out than it holds, and the permits that are out are those handed
/// out that were not taken back.
pub proof fn lemma_pool_bounded(s: PoolState, ops: Seq<PoolOp>)
    requires
        s.held <= s.capacity,
    ensures
        run(s, ops).capacity == s.capacity,
        run(s, ops).held <= s.capacity,
        run(s, ops).held + returned(s, ops) == s.held + issued(s, ops),
    decreases ops.len(),
{
    if ops.len() > 0 {
        lemma_pool_bounded(s, ops.drop_last());
    }
}

/// A permit that is handed back leaves the pool as it was before the permit
/// was handed out.
pub proof fn lemma_release_undoes_acquire(s: PoolState)
    requires
        s.held < s.capacity,
    ensures
        step(step(s, PoolOp::Acquire), PoolOp::Release) == s,
{
}

/// The right to run one guarded operation. It is handed out by
/// [`Throttle::try_acquire`] and handed back to [`Throttle::release`].
#[derive(Debug)]
pub struct Permit {
    token: (),
}

/// A pool of permits with a fixed capacity.
#[derive(Debug)]
pub struct Throttle {
    capacity: usize,
    in_flight: usize,
}

impl View for Throttle {
    type V = PoolState;

    closed spec fn view(&self) -> PoolState {
        PoolState { capacity: self.capacity as nat, held: self.in_flight as nat }
    }
}

impl Throttle {
    /// The number of permits that the pool was made with.
    pub open spec fn cap(&self) -> nat {
        self@.capacity
    }

    /// The number of permits that are out at the moment.
    pub open spec fn held(&self) -> nat {
        self@.held
    }

    /// The pool holds at least one permit and never has more out than it
    /// holds.
    pub open spec fn wf(&self) -> bool {
        &&& self.cap() >= 1
        &&& self.held() <= self.cap()
    }

    /// A pool of `concurrency` permits, of one where `concurrency` is zero,
    /// with none of them out.
    pub fn new(concurrency: usize) -> (t: Self)
        ensures
            t.wf(),
            t.held() == 0,
            t.cap() == if concurrency == 0 { 1nat } else { concurrency as nat },
    {
        Throttle { capacity: if concurrency == 0 { 1 } else { concurrency }, in_flight: 0 }
    }

    /// The capacity of the pool.
    pub fn capacity(&self) -> (n: usize)
        ensures
            n == self.cap(),
    {
        self.capacity
    }

    /// The number of permits that are out.
    pub fn in_flight(&self) -> (n: usize)
        ensures
            n == self.held(),
    {
        self.in_flight
    }

    /// The number of permits that can still be handed out.
    pub fn available(&self) -> (n: usize)
        requires
            self.wf(),
        ensures
            n == self.cap() - self.held(),
    {
        self.capacity - self.in_flight
    }

    /// Hands out a permit if one is free, and none otherwise. The guarded
    /// operation may run only under a permit.
    pub fn try_acquire(&mut self) -> (permit: Option<Permit>)
        requires
            old(self).wf(),
        ensures
            final(self).wf(),
            final(self)@ == step(old(self)@, PoolOp::Acquire),
            permit.is_some() == granted(old(self)@, PoolOp::Acquire),
    {
        if self.in_flight < self.capacity {
            self.in_flight = self.in_flight + 1;
            Some(Permit { token: () })
        } else {
            None
        }
    }

    /// Takes a permit back once the guarded operation is over.
    pub fn release(&mut self, permit: Permit)
        requires
            old(self).wf(),
            old(self).held() > 0,
        ensures
            final(self).wf(),
            final(self)@ == step(old(self)@, PoolOp::Release),
    {
        self.in_flight = self.in_flight - 1;
    }
}

} // verus!
