//! Plain Escape is reserved only while a cancellable voice operation runs,
//! and a press cancels only the operation during which it was made.
use vstd::prelude::*;

verus! {

/// Phases of the dictation and Ask pipelines.
#[derive(Clone, Copy, Debug, PartialEq, Eq, Structural)]
pub enum PipelineState {
    Idle,
    Preparing,
    Recording,
    Transcribing,
    Polishing,
    Outputting,
    AskRecording,
    AskThinking,
}

/// Every processing phase can be cancelled; idle and output cannot, since
/// output may already be reaching the focused application.
pub open spec fn is_cancellable(state: PipelineState) -> bool {
    match state {
        PipelineState::Idle | PipelineState::Outputting => false,
        _ => true,
    }
}

pub fn cancellable(state: PipelineState) -> (r: bool)
    ensures
        r == is_cancellable(state),
{
    match state {
        PipelineState::Preparing | PipelineState::Recording | PipelineState::Transcribing
        | PipelineState::Polishing | PipelineState::AskRecording | PipelineState::AskThinking => true,
        _ => false,
    }
}

/// Whether Escape is reserved, and the number of the cancellable operation
/// it belongs to.
pub struct Service {
    active: bool,
    generation: u64,
}

impl View for Service {
    type V = (bool, u64);

    closed spec fn view(&self) -> (bool, u64) {
        (self.active, self.generation)
    }
}

/// The service after the pipeline enters `state`: entering a cancellable
/// phase from an inactive one starts a new generation.
pub open spec fn after_transition(v: (bool, u64), state: PipelineState) -> (bool, u64) {
    let active = is_cancellable(state);
    let generation = if active && !v.0 {
        (if v.1 == u64::MAX { 0 } else { v.1 + 1 }) as u64
    } else {
        v.1
    };
    (active, generation)
}

/// What a press does to running work.
#[derive(Clone, Copy, Debug, PartialEq, Eq, Structural)]
pub enum CancelTarget {
    /// Nothing is cancelled.
    Nothing,
    /// The busy Ask dictation is aborted.
    Ask,
    /// The dictation pipeline is aborted.
    Pipeline,
}

/// The effect of a press captured at generation `captured`, given whether
/// Ask is busy and the pipeline's current phase, if there is a pipeline.
pub open spec fn press_target(
    v: (bool, u64),
    pressed: bool,
    captured: u64,
    ask_busy: bool,
    pipeline: Option<PipelineState>,
) -> CancelTarget {
    if !pressed || !v.0 || v.1 != captured {
        CancelTarget::Nothing
    } else if ask_busy {
        CancelTarget::Ask
    } else {
        match pipeline {
            Some(s) => if is_cancellable(s) {
                CancelTarget::Pipeline
            } else {
                CancelTarget::Nothing
            },
            None => CancelTarget::Nothing,
        }
    }
}

impl Service {
    pub fn new() -> (r: Self)
        ensures
            r@ == (false, 0u64),
    {
        Service { active: false, generation: 0 }
    }

    /// Whether Escape should currently be reserved.
    pub fn active(&self) -> (r: bool)
        ensures
            r == self@.0,
    {
        self.active
    }

    /// The generation a press is stamped with when it is dispatched.
    pub fn generation(&self) -> (r: u64)
        ensures
            r == self@.1,
    {
        self.generation
    }

    /// Records that the pipeline entered `state`.
    pub fn transition(&mut self, state: PipelineState)
        ensures
            final(self)@ == after_transition(old(self)@, state),
    {
        let active = cancellable(state);
        if active && !self.active {
            self.generation = self.generation.wrapping_add(1);
        }
        self.active = active;
    }

    /// Decides what a press stamped with `captured` cancels: only a pressed
    /// key, while reserved and in the same generation, reaches busy Ask
    /// first and otherwise a pipeline in a cancellable phase.
    pub fn handle(
        &self,
        pressed: bool,
        captured: u64,
        ask_busy: bool,
        pipeline: Option<PipelineState>,
    ) -> (r: CancelTarget)
        ensures
            r == press_target(self@, pressed, captured, ask_busy, pipeline),
    {
        if !pressed || !self.active || self.generation != captured {
            return CancelTarget::Nothing;
        }
        if ask_busy {
            CancelTarget::Ask
        } else {
            match pipeline {
                Some(s) => if cancellable(s) {
                    CancelTarget::Pipeline
                } else {
                    CancelTarget::Nothing
                },
                None => CancelTarget::Nothing,
            }
        }
    }
}

impl Default for Service {
    fn default() -> (r: Self)
        ensures
            r@ == (false, 0u64),
    {
        Service::new()
    }
}

/// How the registration of the Escape shortcut must change.
#[derive(Clone, Copy, Debug, PartialEq, Eq, Structural)]
pub enum ShortcutChange {
    Register,
    Unregister,
    Keep,
}

/// Registers Escape when it should be reserved and is not, unregisters it
/// when it is but should not be, and otherwise leaves it alone.
pub fn refresh_change(active: bool, registered: bool) -> (r: ShortcutChange)
    ensures
        active && !registered <==> r == ShortcutChange::Register,
        !active && registered <==> r == ShortcutChange::Unregister,
        active == registered <==> r == ShortcutChange::Keep,
{
    if active && !registered {
        ShortcutChange::Register
    } else if !active && registered {
        ShortcutChange::Unregister
    } else {
        ShortcutChange::Keep
    }
}

/// A press dispatched before a new cancellable operation began never
/// cancels that operation, whatever else is running.
pub proof fn lemma_stale_press_never_cancels(
    v: (bool, u64),
    state: PipelineState,
    ask_busy: bool,
    pipeline: Option<PipelineState>,
)
    requires
        !v.0,
        is_cancellable(state),
    ensures
        press_target(after_transition(v, state), true, v.1, ask_busy, pipeline)
            == CancelTarget::Nothing,
{
}

/// Idle and output phases are never cancelled by a press, current or not.
pub proof fn lemma_settled_phases_are_never_cancelled(
    v: (bool, u64),
    captured: u64,
    state: PipelineState,
)
    requires
        !is_cancellable(state),
    ensures
        press_target(v, true, captured, false, Some(state)) == CancelTarget::Nothing,
        press_target(after_transition(v, state), true, captured, true, Some(state))
            == CancelTarget::Nothing,
{
}

} // verus!
