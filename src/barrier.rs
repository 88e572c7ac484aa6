use vstd::prelude::*;

verus! {

/// What a core learns from its arrival at the barrier.
#[derive(Clone, Copy, Debug, PartialEq, Eq, Structural)]
pub enum WaitOutcome {
    /// Not every core has arrived yet: the caller keeps waiting.
    Blocked,
    /// The caller was the last to arrive: every waiting core is released.
    ReleasedAll,
}

/// A single-phase barrier for a fixed number of cores. Each core arrives at
/// most once; once all have arrived the barrier stays released. It is never
/// reset.
pub struct KernelEntryBarrier {
    capacity: usize,
    arrived: Vec<bool>,
    count: usize,
    arrived_set: Ghost<Set<nat>>,
}

/// The barrier as the set of cores that have arrived out of `capacity`.
pub struct BarrierView {
    pub capacity: nat,
    pub arrived: Set<nat>,
}

/// Cores `0..n`.
pub open spec fn all_cores(n: nat) -> Set<nat> {
    Set::new(|i: nat| i < n)
}

/// Every core has arrived.
pub open spec fn released(b: BarrierView) -> bool {
    b.arrived.len() == b.capacity
}

/// A barrier view that can arise: at least one core, and only those cores arrived.
pub open spec fn barrier_view_wf(b: BarrierView) -> bool {
    b.capacity >= 1 && b.arrived.finite() && b.arrived.subset_of(all_cores(b.capacity))
}

impl View for KernelEntryBarrier {
    type V = BarrierView;

    closed spec fn view(&self) -> BarrierView {
        BarrierView { capacity: self.capacity as nat, arrived: self.arrived_set@ }
    }
}

/// Cores `0..n` are `n` cores.
pub proof fn lemma_all_cores_len(n: nat)
    ensures
        all_cores(n).finite(),
        all_cores(n).len() == n,
    decreases n,
{
    if n == 0 {
        assert(all_cores(0) =~= Set::empty());
    } else {
        lemma_all_cores_len((n - 1) as nat);
        assert(all_cores(n) =~= all_cores((n - 1) as nat).insert((n - 1) as nat));
    }
}

/// The barrier is released exactly when every core `0..capacity` has arrived.
pub proof fn lemma_released_iff_all_arrived(b: BarrierView)
    requires
        barrier_view_wf(b),
    ensures
        released(b) <==> b.arrived =~= all_cores(b.capacity),
{
    lemma_all_cores_len(b.capacity);
    if released(b) {
        vstd::set_lib::lemma_subset_equality(b.arrived, all_cores(b.capacity));
    }
}

/// Only the arrival that completes the set releases the barrier: with `n`
/// cores, an arrival releases it exactly when `n - 1` cores were already there,
/// and every earlier arrival leaves it closed.
pub proof fn lemma_release_on_last_arrival(b: BarrierView, core_id: nat)
    requires
        barrier_view_wf(b),
        core_id < b.capacity,
        !b.arrived.contains(core_id),
    ensures
        !released(b),
        released(BarrierView { arrived: b.arrived.insert(core_id), ..b }) <==> b.arrived.len() + 1
            == b.capacity,
        b.arrived.len() + 1 < b.capacity ==> !released(
            BarrierView { arrived: b.arrived.insert(core_id), ..b },
        ),
{
    lemma_all_cores_len(b.capacity);
    vstd::set_lib::lemma_len_subset(b.arrived, all_cores(b.capacity));
    if b.arrived.len() == b.capacity {
        vstd::set_lib::lemma_subset_equality(b.arrived, all_cores(b.capacity));
        assert(b.arrived.contains(core_id));
    }
}

impl KernelEntryBarrier {
    /// The fields agree with the view.
    pub closed spec fn wf(&self) -> bool {
        &&& self.capacity >= 1
        &&& self.arrived@.len() == self.capacity
        &&& self.arrived_set@.finite()
        &&& self.arrived_set@.subset_of(all_cores(self.capacity as nat))
        &&& forall|i: int|
            0 <= i < self.capacity ==> (#[trigger] self.arrived@[i] <==> self.arrived_set@.contains(
                i as nat,
            ))
        &&& self.count == self.arrived_set@.len()
    }

    /// A barrier for `capacity` cores, none of which has arrived.
    pub fn new(capacity: usize) -> (r: KernelEntryBarrier)
        requires
            capacity >= 1,
        ensures
            r.wf(),
            r@.capacity == capacity,
            r@.arrived == Set::<nat>::empty(),
    {
        let mut arrived: Vec<bool> = Vec::new();
        let mut i: usize = 0;
        while i < capacity
            invariant
                i <= capacity,
                arrived@.len() == i,
                forall|j: int| 0 <= j < i ==> !(#[trigger] arrived@[j]),
            decreases capacity - i,
        {
            arrived.push(false);
            i += 1;
        }
        KernelEntryBarrier { capacity, arrived, count: 0, arrived_set: Ghost(Set::empty()) }
    }

    /// Number of cores the barrier waits for.
    pub fn capacity(&self) -> (r: usize)
        ensures
            r == self@.capacity,
    {
        self.capacity
    }

    /// Number of cores that have arrived.
    pub fn arrivals(&self) -> (r: usize)
        requires
            self.wf(),
        ensures
            r == self@.arrived.len(),
    {
        self.count
    }

    /// Whether core `core_id` has arrived.
    pub fn has_arrived(&self, core_id: usize) -> (r: bool)
        requires
            self.wf(),
            core_id < self@.capacity,
        ensures
            r == self@.arrived.contains(core_id as nat),
    {
        self.arrived[core_id]
    }

    /// Whether every core has arrived.
    pub fn is_released(&self) -> (r: bool)
        requires
            self.wf(),
        ensures
            r == released(self@),
    {
        self.count == self.capacity
    }

    /// Core `core_id` arrives. The arrival that completes the set releases
    /// every core; any earlier one leaves its caller blocked.
    pub fn wait(&mut self, core_id: usize) -> (r: WaitOutcome)
        requires
            old(self).wf(),
            core_id < old(self)@.capacity,
            !old(self)@.arrived.contains(core_id as nat),
        ensures
            final(self).wf(),
            final(self)@.capacity == old(self)@.capacity,
            final(self)@.arrived == old(self)@.arrived.insert(core_id as nat),
            !released(old(self)@),
            r == (if released(final(self)@) {
                WaitOutcome::ReleasedAll
            } else {
                WaitOutcome::Blocked
            }),
    {
        proof {
            lemma_all_cores_len(self.capacity as nat);
            vstd::set_lib::lemma_len_subset(self.arrived_set@, all_cores(self.capacity as nat));
            if self.arrived_set@.len() == self.capacity {
                vstd::set_lib::lemma_subset_equality(
                    self.arrived_set@,
                    all_cores(self.capacity as nat),
                );
                assert(self.arrived_set@.contains(core_id as nat));
            }
        }
        self.arrived.set(core_id, true);
        self.count = self.count + 1;
        self.arrived_set = Ghost(self.arrived_set@.insert(core_id as nat));
        if self.count == self.capacity {
            WaitOutcome::ReleasedAll
        } else {
            WaitOutcome::Blocked
        }
    }
}

} // verus!
