//! Audio device transitions stop for the rest of the session once a
//! device command's completion is uncertain.
use vstd::prelude::*;

verus! {

pub open spec fn uncertain_message() -> Seq<char> {
    "Audio device completion is uncertain. Restart H after checking the audio device."@
}

/// The session-wide gate in front of device transitions.
pub struct TransitionGate {
    failed: bool,
}

impl View for TransitionGate {
    type V = bool;

    /// Whether transitions have been disabled.
    closed spec fn view(&self) -> bool {
        self.failed
    }
}

impl TransitionGate {
    pub fn new() -> (r: Self)
        ensures
            !r@,
    {
        TransitionGate { failed: false }
    }

    /// Disables further device transitions; nothing enables them again.
    pub fn fail(&mut self)
        ensures
            final(self)@,
    {
        self.failed = true;
    }

    /// Whether a device transition may start.
    pub fn check(&self) -> (r: Result<(), String>)
        ensures
            r is Ok <==> !self@,
            r matches Err(m) ==> m@ == uncertain_message(),
    {
        if self.failed {
            Err(
                String::from_str(
                    "Audio device completion is uncertain. Restart H after checking the audio device.",
                ),
            )
        } else {
            Ok(())
        }
    }
}

/// What the wait for a transition slot decides on each attempt.
pub enum SlotDecision {
    /// The slot was taken and transitions are still allowed.
    Proceed,
    /// Transitions are disabled or could not start; report why.
    Refuse(String),
    /// The slot is busy and time remains.
    Retry,
}

/// One attempt at entering a device transition: `locked` is whether the
/// transition lock was obtained, `poisoned` whether it was poisoned,
/// `time_left` whether the three-second deadline has not passed. A poisoned
/// lock or an expired deadline disables every later transition.
pub fn enter_step(gate: &mut TransitionGate, locked: bool, poisoned: bool, time_left: bool) -> (r:
    SlotDecision)
    ensures
        old(gate)@ ==> (r matches SlotDecision::Refuse(m) && m@ == uncertain_message()
            && final(gate)@),
        !old(gate)@ && locked ==> (r is Proceed && !final(gate)@),
        !old(gate)@ && !locked && poisoned ==> (r matches SlotDecision::Refuse(m) && m@
            == "Audio transition lock poisoned"@ && final(gate)@),
        !old(gate)@ && !locked && !poisoned && time_left ==> (r is Retry && !final(gate)@),
        !old(gate)@ && !locked && !poisoned && !time_left ==> (r matches SlotDecision::Refuse(m)
            && m@ == "Audio device transition timed out"@ && final(gate)@),
{
    if gate.failed {
        return SlotDecision::Refuse(
            String::from_str(
                "Audio device completion is uncertain. Restart H after checking the audio device.",
            ),
        );
    }
    if locked {
        SlotDecision::Proceed
    } else if poisoned {
        gate.fail();
        SlotDecision::Refuse(String::from_str("Audio transition lock poisoned"))
    } else if time_left {
        SlotDecision::Retry
    } else {
        gate.fail();
        SlotDecision::Refuse(String::from_str("Audio device transition timed out"))
    }
}

/// What waiting for a device property to confirm a write decides after
/// each readback.
pub enum ConfirmStep {
    /// The readback confirmed the write.
    Done,
    /// Give up with this error.
    Fail(String),
    /// Read again shortly.
    Wait,
}

/// A readback error ends the wait with that error; a confirmation ends it
/// successfully; otherwise it ends with a timeout once the deadline has
/// passed, and continues before.
pub fn confirmation_step(readback: Result<bool, String>, expired: bool) -> (r: ConfirmStep)
    ensures
        readback matches Err(e) ==> (r matches ConfirmStep::Fail(m) && m@ == e@),
        readback == Ok::<bool, String>(true) ==> r is Done,
        readback == Ok::<bool, String>(false) && expired ==> (r matches ConfirmStep::Fail(m) && m@
            == "Audio property completion timed out"@),
        readback == Ok::<bool, String>(false) && !expired ==> r is Wait,
{
    match readback {
        Err(e) => ConfirmStep::Fail(e),
        Ok(true) => ConfirmStep::Done,
        Ok(false) => if expired {
            ConfirmStep::Fail(String::from_str("Audio property completion timed out"))
        } else {
            ConfirmStep::Wait
        },
    }
}

} // verus!
