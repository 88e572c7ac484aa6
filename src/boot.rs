use vstd::prelude::*;

use crate::barrier::{
    barrier_view_wf, lemma_released_iff_all_arrived, released, all_cores, BarrierView,
    KernelEntryBarrier,
};
use crate::protocol::{core_step, on_kernel_return, return_spec, step_spec, CoreAction, CoreStage};
use crate::translation::{tables_wf, TablesView, TranslationStructures};

verus! {

/// Which of the two diagnostics a line is.
#[derive(Clone, Copy, Debug, PartialEq, Eq, Structural)]
pub enum LogKind {
    /// "Core <id>: entering kernel".
    Entering,
    /// "Core <id>: failed to enter kernel".
    FailedToEnter,
}

/// One line written to the debug sink by core `core`.
#[derive(Clone, Copy, Debug, PartialEq, Eq, Structural)]
pub struct LogLine {
    pub core: usize,
    pub kind: LogKind,
}

/// A request to the platform to start a secondary core at an entry point.
#[derive(Clone, Copy, Debug, PartialEq, Eq, Structural)]
pub struct StartRequest {
    pub core_id: usize,
    pub entry_point: u64,
}

/// The start requests the primary core issues: one for each secondary core
/// `1..num_nodes`, in order, all naming the same entry point.
pub fn secondary_start_requests(num_nodes: usize, entry_point: u64) -> (r: Vec<StartRequest>)
    requires
        num_nodes >= 1,
    ensures
        r@.len() == num_nodes - 1,
        forall|i: int|
            0 <= i < r@.len() ==> #[trigger] r@[i] == (StartRequest {
                core_id: (i + 1) as usize,
                entry_point,
            }),
{
    let mut r: Vec<StartRequest> = Vec::new();
    let mut id: usize = 1;
    while id < num_nodes
        invariant
            1 <= id <= num_nodes,
            r@.len() == id - 1,
            forall|i: int|
                0 <= i < r@.len() ==> #[trigger] r@[i] == (StartRequest {
                    core_id: (i + 1) as usize,
                    entry_point,
                }),
        decreases num_nodes - id,
    {
        r.push(StartRequest { core_id: id, entry_point });
        id += 1;
    }
    r
}

/// The whole machine during boot: the shared tables, the barrier, the stage of
/// every core, what has been written to the debug sink, and the cores that
/// have jumped into the kernel, in order.
pub struct BootView {
    pub tables: TablesView,
    pub barrier: BarrierView,
    pub stages: Seq<CoreStage>,
    pub log: Seq<LogLine>,
    pub handoffs: Seq<usize>,
}

/// The stage comes after release from the barrier.
pub open spec fn past_barrier(s: CoreStage) -> bool {
    s == CoreStage::Released || s == CoreStage::Handoff || s == CoreStage::InKernel || s
        == CoreStage::Failed || s == CoreStage::Idle
}

/// What holds in every reachable state of the boot.
pub open spec fn boot_view_wf(v: BootView) -> bool {
    &&& barrier_view_wf(v.barrier)
    &&& tables_wf(v.tables)
    &&& v.stages.len() == v.barrier.capacity
    &&& forall|i: int|
        0 <= i < v.stages.len() && (#[trigger] v.stages[i] == CoreStage::Offline || v.stages[i]
            == CoreStage::Init) ==> !v.barrier.arrived.contains(i as nat)
    &&& forall|i: int|
        0 <= i < v.stages.len() && past_barrier(#[trigger] v.stages[i]) ==> released(v.barrier)
    &&& v.log.len() > 0 ==> released(v.barrier)
    &&& v.handoffs.len() > 0 ==> released(v.barrier)
}

/// The boot as it runs on `num_nodes` cores.
pub struct BootSystem {
    tables: TranslationStructures,
    barrier: KernelEntryBarrier,
    stages: Vec<CoreStage>,
    log: Vec<LogLine>,
    handoffs: Vec<usize>,
}

impl View for BootSystem {
    type V = BootView;

    closed spec fn view(&self) -> BootView {
        BootView {
            tables: self.tables@,
            barrier: self.barrier@,
            stages: self.stages@,
            log: self.log@,
            handoffs: self.handoffs@,
        }
    }
}

/// The state of core `id` after one step.
pub open spec fn next_stage(old: BootView, new_barrier: BarrierView, id: int) -> CoreStage {
    if old.stages[id] == CoreStage::AtBarrier && !released(new_barrier) {
        CoreStage::AtBarrier
    } else {
        step_spec(old.stages[id]).0
    }
}

/// The barrier after one step of core `id`: a core waiting at it arrives once.
pub open spec fn next_barrier(old: BootView, id: int) -> BarrierView {
    if old.stages[id] == CoreStage::AtBarrier && !old.barrier.arrived.contains(id as nat) {
        BarrierView { arrived: old.barrier.arrived.insert(id as nat), ..old.barrier }
    } else {
        old.barrier
    }
}

/// What one step of core `id` writes to the debug sink.
pub open spec fn step_log(stage: CoreStage, id: int) -> Seq<LogLine> {
    if stage == CoreStage::Released {
        seq![LogLine { core: id as usize, kind: LogKind::Entering }]
    } else if stage == CoreStage::Failed {
        seq![LogLine { core: id as usize, kind: LogKind::FailedToEnter }]
    } else {
        Seq::empty()
    }
}

impl BootSystem {
    /// The fields agree with the view, and the view is a reachable state.
    pub closed spec fn wf(&self) -> bool {
        &&& self.barrier.wf()
        &&& boot_view_wf(self@)
    }

    /// The machine right after the primary core has built the tables: the
    /// primary is running its per-core set-up, every secondary is offline,
    /// nothing has been written and nobody has arrived at the barrier.
    pub fn new(num_nodes: usize, tables: TranslationStructures) -> (r: BootSystem)
        requires
            num_nodes >= 1,
            tables_wf(tables@),
        ensures
            r.wf(),
            r@.tables == tables@,
            r@.barrier.capacity == num_nodes,
            r@.barrier.arrived == Set::<nat>::empty(),
            r@.stages.len() == num_nodes,
            r@.stages[0] == CoreStage::Init,
            forall|i: int| 1 <= i < num_nodes ==> #[trigger] r@.stages[i] == CoreStage::Offline,
            r@.log == Seq::<LogLine>::empty(),
            r@.handoffs == Seq::<usize>::empty(),
    {
        let barrier = KernelEntryBarrier::new(num_nodes);
        let mut stages: Vec<CoreStage> = Vec::new();
        stages.push(CoreStage::Init);
        let mut i: usize = 1;
        while i < num_nodes
            invariant
                1 <= i <= num_nodes,
                stages@.len() == i,
                stages@[0] == CoreStage::Init,
                forall|j: int| 1 <= j < i ==> #[trigger] stages@[j] == CoreStage::Offline,
            decreases num_nodes - i,
        {
            stages.push(CoreStage::Offline);
            i += 1;
        }
        BootSystem { tables, barrier, stages, log: Vec::new(), handoffs: Vec::new() }
    }

    /// Number of cores.
    pub fn num_nodes(&self) -> (r: usize)
        requires
            self.wf(),
        ensures
            r == self@.stages.len(),
    {
        self.stages.len()
    }

    /// The shared translation structures.
    pub fn tables(&self) -> (r: &TranslationStructures)
        ensures
            r@ == self@.tables,
    {
        &self.tables
    }

    /// The stage of core `id`.
    pub fn stage(&self, id: usize) -> (r: CoreStage)
        requires
            self.wf(),
            id < self@.stages.len(),
        ensures
            r == self@.stages[id as int],
    {
        self.stages[id]
    }

    /// Whether every core has arrived at the barrier.
    pub fn is_released(&self) -> (r: bool)
        requires
            self.wf(),
        ensures
            r == released(self@.barrier),
    {
        self.barrier.is_released()
    }

    /// Lines written to the debug sink so far.
    pub fn log(&self) -> (r: &Vec<LogLine>)
        ensures
            r@ == self@.log,
    {
        &self.log
    }

    /// Cores that have jumped into the kernel, in order.
    pub fn handoffs(&self) -> (r: &Vec<usize>)
        ensures
            r@ == self@.handoffs,
    {
        &self.handoffs
    }

    /// The platform has started secondary core `id`: it begins its per-core
    /// set-up. A core that is already running is left as it is.
    pub fn core_started(&mut self, id: usize)
        requires
            old(self).wf(),
            id < old(self)@.stages.len(),
        ensures
            final(self).wf(),
            final(self)@.tables == old(self)@.tables,
            final(self)@.barrier == old(self)@.barrier,
            final(self)@.log == old(self)@.log,
            final(self)@.handoffs == old(self)@.handoffs,
            final(self)@.stages == (if old(self)@.stages[id as int] == CoreStage::Offline {
                old(self)@.stages.update(id as int, CoreStage::Init)
            } else {
                old(self)@.stages
            }),
    {
        if self.stages[id] == CoreStage::Offline {
            self.stages.set(id, CoreStage::Init);
        }
    }

    /// Core `id` performs the action of its stage and moves on. At the barrier
    /// it arrives once and stays until every core has arrived.
    pub fn advance(&mut self, id: usize) -> (r: CoreAction)
        requires
            old(self).wf(),
            id < old(self)@.stages.len(),
        ensures
            final(self).wf(),
            r == step_spec(old(self)@.stages[id as int]).1,
            final(self)@.tables == old(self)@.tables,
            final(self)@.barrier == next_barrier(old(self)@, id as int),
            final(self)@.stages == old(self)@.stages.update(
                id as int,
                next_stage(old(self)@, final(self)@.barrier, id as int),
            ),
            final(self)@.log == old(self)@.log + step_log(old(self)@.stages[id as int], id as int),
            final(self)@.handoffs == old(self)@.handoffs + (if old(self)@.stages[id as int]
                == CoreStage::Handoff {
                seq![id]
            } else {
                Seq::empty()
            }),
    {
        let stage = self.stages[id];
        let (next, action) = core_step(stage);
        match stage {
            CoreStage::AtBarrier => {
                if !self.barrier.has_arrived(id) {
                    let _ = self.barrier.wait(id);
                }
                if self.barrier.is_released() {
                    self.stages.set(id, next);
                }
            },
            CoreStage::Released => {
                self.log.push(LogLine { core: id, kind: LogKind::Entering });
                self.stages.set(id, next);
            },
            CoreStage::Handoff => {
                self.handoffs.push(id);
                self.stages.set(id, next);
            },
            CoreStage::Failed => {
                self.log.push(LogLine { core: id, kind: LogKind::FailedToEnter });
                self.stages.set(id, next);
            },
            _ => {
                self.stages.set(id, next);
            },
        }
        proof {
            assert(self@.log =~= old(self)@.log + step_log(stage, id as int));
        }
        action
    }

    /// The jump into the kernel came back on core `id`: it takes the failure
    /// path. A core in any other stage is left where it is.
    pub fn kernel_returned(&mut self, id: usize)
        requires
            old(self).wf(),
            id < old(self)@.stages.len(),
        ensures
            final(self).wf(),
            final(self)@.tables == old(self)@.tables,
            final(self)@.barrier == old(self)@.barrier,
            final(self)@.log == old(self)@.log,
            final(self)@.handoffs == old(self)@.handoffs,
            final(self)@.stages == old(self)@.stages.update(
                id as int,
                return_spec(old(self)@.stages[id as int]),
            ),
    {
        let stage = on_kernel_return(self.stages[id]);
        self.stages.set(id, stage);
    }
}

/// No core announces its entry or jumps into the kernel until every core has
/// arrived at the barrier: a core that never arrives keeps all others from
/// leaving it.
pub proof fn lemma_no_entry_before_all_arrive(v: BootView)
    requires
        boot_view_wf(v),
    ensures
        v.log.len() > 0 || v.handoffs.len() > 0 ==> v.barrier.arrived =~= all_cores(
            v.barrier.capacity,
        ),
        (exists|i: nat| i < v.barrier.capacity && !(#[trigger] v.barrier.arrived.contains(i)))
            ==> v.log.len() == 0 && v.handoffs.len() == 0 && forall|j: int|
            0 <= j < v.stages.len() ==> !past_barrier(#[trigger] v.stages[j]),
{
    lemma_released_iff_all_arrived(v.barrier);
}

} // verus!
