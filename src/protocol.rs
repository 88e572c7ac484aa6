use vstd::prelude::*;

verus! {

/// Where a core stands in its boot sequence.
#[derive(Clone, Copy, Debug, PartialEq, Eq, Structural)]
pub enum CoreStage {
    /// Not yet started by the platform.
    Offline,
    /// Running, with its per-core hardware state still to be set up.
    Init,
    /// Set up, waiting at the kernel-entry barrier.
    AtBarrier,
    /// Released by the barrier, about to announce its entry.
    Released,
    /// Announced; the jump into the kernel is next.
    Handoff,
    /// Running the kernel: the core no longer belongs to the loader.
    InKernel,
    /// The jump into the kernel came back.
    Failed,
    /// Parked for good.
    Idle,
}

/// What a core does next.
#[derive(Clone, Copy, Debug, PartialEq, Eq, Structural)]
pub enum CoreAction {
    /// Nothing: the core has not been started.
    Nothing,
    /// Install exception vectors and enable address translation on this core.
    InitPlatformState,
    /// Arrive at the kernel-entry barrier and wait for release.
    WaitAtBarrier,
    /// Write "Core <id>: entering kernel".
    LogEntering,
    /// Jump to the kernel's entry with the core id and the payload info.
    EnterKernel,
    /// Write "Core <id>: failed to enter kernel".
    LogFailed,
    /// Wait for an event, in low power, with no other effect.
    WaitForEvent,
}

/// Whether an action writes to the debug sink.
pub open spec fn is_diagnostic(a: CoreAction) -> bool {
    a == CoreAction::LogEntering || a == CoreAction::LogFailed
}

/// One step of a core: the action to perform in `stage`, and the stage that
/// follows once it has been performed.
pub open spec fn step_spec(stage: CoreStage) -> (CoreStage, CoreAction) {
    match stage {
        CoreStage::Offline => (CoreStage::Offline, CoreAction::Nothing),
        CoreStage::Init => (CoreStage::AtBarrier, CoreAction::InitPlatformState),
        CoreStage::AtBarrier => (CoreStage::Released, CoreAction::WaitAtBarrier),
        CoreStage::Released => (CoreStage::Handoff, CoreAction::LogEntering),
        CoreStage::Handoff => (CoreStage::InKernel, CoreAction::EnterKernel),
        CoreStage::InKernel => (CoreStage::InKernel, CoreAction::Nothing),
        CoreStage::Failed => (CoreStage::Idle, CoreAction::LogFailed),
        CoreStage::Idle => (CoreStage::Idle, CoreAction::WaitForEvent),
    }
}

/// The action a core performs in `stage`, and the stage it moves to once the
/// action has completed. Waiting at the barrier completes only on release; a
/// core that has jumped into the kernel does nothing more unless the jump comes
/// back (see `on_kernel_return`).
pub fn core_step(stage: CoreStage) -> (r: (CoreStage, CoreAction))
    ensures
        r == step_spec(stage),
{
    match stage {
        CoreStage::Offline => (CoreStage::Offline, CoreAction::Nothing),
        CoreStage::Init => (CoreStage::AtBarrier, CoreAction::InitPlatformState),
        CoreStage::AtBarrier => (CoreStage::Released, CoreAction::WaitAtBarrier),
        CoreStage::Released => (CoreStage::Handoff, CoreAction::LogEntering),
        CoreStage::Handoff => (CoreStage::InKernel, CoreAction::EnterKernel),
        CoreStage::InKernel => (CoreStage::InKernel, CoreAction::Nothing),
        CoreStage::Failed => (CoreStage::Idle, CoreAction::LogFailed),
        CoreStage::Idle => (CoreStage::Idle, CoreAction::WaitForEvent),
    }
}

/// The stage after the jump into the kernel came back.
pub open spec fn return_spec(stage: CoreStage) -> CoreStage {
    if stage == CoreStage::InKernel {
        CoreStage::Failed
    } else {
        stage
    }
}

/// Moves a core whose jump into the kernel came back onto the failure path;
/// a core in any other stage is left where it is.
pub fn on_kernel_return(stage: CoreStage) -> (r: CoreStage)
    ensures
        r == return_spec(stage),
{
    match stage {
        CoreStage::InKernel => CoreStage::Failed,
        _ => stage,
    }
}

/// The actions of `k` successive steps from `stage`.
pub open spec fn trace(stage: CoreStage, k: nat) -> Seq<CoreAction>
    decreases k,
{
    if k == 0 {
        Seq::empty()
    } else {
        seq![step_spec(stage).1] + trace(step_spec(stage).0, (k - 1) as nat)
    }
}

/// Number of diagnostic writes in a sequence of actions.
pub open spec fn diagnostics(actions: Seq<CoreAction>) -> nat
    decreases actions.len(),
{
    if actions.len() == 0 {
        0
    } else {
        (if is_diagnostic(actions[0]) {
            1nat
        } else {
            0nat
        }) + diagnostics(actions.drop_first())
    }
}

/// A parked core only waits for events, however long it runs.
pub proof fn lemma_idle_is_silent(k: nat)
    ensures
        trace(CoreStage::Idle, k) =~= Seq::new(k, |i: int| CoreAction::WaitForEvent),
        diagnostics(trace(CoreStage::Idle, k)) == 0,
    decreases k,
{
    if k > 0 {
        lemma_idle_is_silent((k - 1) as nat);
        assert(trace(CoreStage::Idle, k).drop_first() =~= trace(CoreStage::Idle, (k - 1) as nat));
    }
}

/// The failure path writes exactly one diagnostic and then only waits for
/// events: over any number of steps after a failed hand-off, the first action
/// is the diagnostic and every later one is a wait for an event.
pub proof fn lemma_failure_path_writes_once(k: nat)
    requires
        k >= 1,
    ensures
        trace(CoreStage::Failed, k)[0] == CoreAction::LogFailed,
        forall|i: int| 1 <= i < k ==> #[trigger] trace(CoreStage::Failed, k)[i] == CoreAction::WaitForEvent,
        diagnostics(trace(CoreStage::Failed, k)) == 1,
{
    lemma_idle_is_silent((k - 1) as nat);
    let t = trace(CoreStage::Failed, k);
    assert(t.drop_first() =~= trace(CoreStage::Idle, (k - 1) as nat));
}

/// Every core that is started runs the same sequence: set-up, barrier, the
/// announcement, the jump into the kernel.
pub proof fn lemma_started_core_sequence()
    ensures
        trace(CoreStage::Init, 4) =~= seq![
            CoreAction::InitPlatformState,
            CoreAction::WaitAtBarrier,
            CoreAction::LogEntering,
            CoreAction::EnterKernel,
        ],
{
    reveal_with_fuel(trace, 5);
}

} // verus!
