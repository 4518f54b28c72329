//! Recording feedback on screen: which phase is shown, when a new
//! recording starts, and which delayed work may still act. Work started for
//! one recording or preview carries its generation and is dropped once a
//! newer one began.
use crate::text::{chars_of, eq_lit};
use vstd::prelude::*;

verus! {

/// What the feedback shows, and the generation of its current recording.
pub struct Feedback {
    phase: String,
    revision: u64,
    failed: bool,
    preview: bool,
    generation: u64,
}

/// The plain state: phase, revision, failure shown, preview running,
/// generation.
pub struct FeedbackView {
    pub phase: Seq<char>,
    pub revision: u64,
    pub failed: bool,
    pub preview: bool,
    pub generation: u64,
}

impl View for Feedback {
    type V = FeedbackView;

    closed spec fn view(&self) -> FeedbackView {
        FeedbackView {
            phase: self.phase@,
            revision: self.revision,
            failed: self.failed,
            preview: self.preview,
            generation: self.generation,
        }
    }
}

pub open spec fn bump(n: u64) -> u64 {
    (if n == u64::MAX {
        0
    } else {
        n + 1
    }) as u64
}

/// A pipeline phase change. A recording starts when a phase other than
/// idle follows idle or a preview; then any failure is cleared and a new
/// generation begins. Returning to idle also clears the failure and ends
/// the generation. The result is (started, generation of the recording).
pub open spec fn advance_spec(s: FeedbackView, phase: Seq<char>) -> (FeedbackView, (bool, u64)) {
    let idle = phase == "idle"@;
    let start = (s.phase == "idle"@ || s.preview) && !idle;
    let after_idle = if idle {
        bump(s.generation)
    } else {
        s.generation
    };
    let generation = if start {
        bump(after_idle)
    } else {
        after_idle
    };
    (
        FeedbackView {
            phase,
            revision: bump(s.revision),
            failed: if start || idle {
                false
            } else {
                s.failed
            },
            preview: false,
            generation,
        },
        (start, generation),
    )
}

impl Feedback {
    /// Idle, nothing shown.
    pub fn new() -> (r: Self)
        ensures
            r@ == (FeedbackView {
                phase: "idle"@,
                revision: 0,
                failed: false,
                preview: false,
                generation: 0,
            }),
    {
        Feedback {
            phase: String::from_str("idle"),
            revision: 0,
            failed: false,
            preview: false,
            generation: 0,
        }
    }

    pub fn phase(&self) -> (r: &str)
        ensures
            r@ == self@.phase,
    {
        self.phase.as_str()
    }

    pub fn revision(&self) -> (r: u64)
        ensures
            r == self@.revision,
    {
        self.revision
    }

    pub fn failed(&self) -> (r: bool)
        ensures
            r == self@.failed,
    {
        self.failed
    }

    /// Whether the shown recording is only a settings preview.
    pub fn previewing(&self) -> (r: bool)
        ensures
            r == self@.preview,
    {
        self.preview
    }

    /// Whether work started for `generation` is still current.
    pub fn current(&self, generation: u64) -> (r: bool)
        ensures
            r == (self@.generation == generation),
    {
        self.generation == generation
    }

    /// Records a pipeline phase change.
    pub fn advance(&mut self, phase: &str) -> (r: (bool, u64))
        ensures
            (final(self)@, r) == advance_spec(old(self)@, phase@),
    {
        let p = chars_of(phase);
        let idle = eq_lit(&p, "idle");
        let was_idle = eq_lit(&chars_of(self.phase.as_str()), "idle");
        let start = (was_idle || self.preview) && !idle;
        self.preview = false;
        if start || idle {
            self.failed = false;
        }
        self.revision = self.revision.wrapping_add(1);
        self.phase = String::from_str(phase);
        if idle {
            self.generation = self.generation.wrapping_add(1);
        }
        if start {
            self.generation = self.generation.wrapping_add(1);
        }
        (start, self.generation)
    }

    /// A pipeline error is shown until the next recording or idle.
    pub fn pipeline_error(&mut self)
        ensures
            final(self)@ == (FeedbackView {
                failed: true,
                revision: bump(old(self)@.revision),
                ..old(self)@
            }),
    {
        self.failed = true;
        self.revision = self.revision.wrapping_add(1);
    }

    /// New settings were stored.
    pub fn settings_changed(&mut self)
        ensures
            final(self)@ == (FeedbackView { revision: bump(old(self)@.revision), ..old(self)@ }),
    {
        self.revision = self.revision.wrapping_add(1);
    }

    /// Starts a settings preview that looks like recording; only while idle.
    /// The result is the preview's generation.
    pub fn begin_preview(&mut self) -> (r: Result<u64, String>)
        ensures
            old(self)@.phase != "idle"@ ==> (r matches Err(m) && m@
                == "Finish recording before previewing"@ && final(self)@ == old(self)@),
            old(self)@.phase == "idle"@ ==> r == Ok::<u64, String>(bump(old(self)@.generation))
                && final(self)@ == (FeedbackView {
                phase: "recording"@,
                revision: bump(old(self)@.revision),
                failed: false,
                preview: true,
                generation: bump(old(self)@.generation),
            }),
    {
        if !eq_lit(&chars_of(self.phase.as_str()), "idle") {
            return Err(String::from_str("Finish recording before previewing"));
        }
        self.failed = false;
        self.preview = true;
        self.phase = String::from_str("recording");
        self.revision = self.revision.wrapping_add(1);
        self.generation = self.generation.wrapping_add(1);
        Ok(self.generation)
    }

    /// Ends the preview started as `generation`, unless a recording or
    /// another preview has begun since.
    pub fn finish_preview(&mut self, generation: u64) -> (r: bool)
        ensures
            r == (old(self)@.generation == generation && old(self)@.preview),
            r ==> final(self)@ == (FeedbackView {
                phase: "idle"@,
                revision: bump(old(self)@.revision),
                preview: false,
                ..old(self)@
            }),
            !r ==> final(self)@ == old(self)@,
    {
        if self.generation != generation || !self.preview {
            return false;
        }
        self.preview = false;
        self.phase = String::from_str("idle");
        self.revision = self.revision.wrapping_add(1);
        true
    }

    /// The app is shutting down: pending work of every generation is void.
    pub fn shutdown(&mut self)
        ensures
            final(self)@ == (FeedbackView { generation: bump(old(self)@.generation), ..old(self)@ }),
    {
        self.generation = self.generation.wrapping_add(1);
    }
}

/// The edge glow is hidden while suspended, after a failure, when idle, or
/// when feedback is disabled.
pub fn edge_hidden(suspended: bool, failed: bool, phase: &str, enabled: bool) -> (r: bool)
    ensures
        r == (suspended || failed || phase@ == "idle"@ || !enabled),
{
    suspended || failed || eq_lit(&chars_of(phase), "idle") || !enabled
}

/// A capsule relayout for `phase` applies only during a preview or while
/// that phase is still shown.
pub fn layout_applies(previewing: bool, shown_phase: &str, phase: &str) -> (r: bool)
    ensures
        r == (previewing || shown_phase@ == phase@),
{
    previewing || eq_lit(&chars_of(shown_phase), phase)
}

/// A caret position resolved for an old recording never places the
/// capsule of a recording started after a return to idle.
pub proof fn lemma_stale_anchor_is_dropped(s: FeedbackView, p: Seq<char>, q: Seq<char>)
    requires
        s.phase == "idle"@,
        p != "idle"@,
        q != "idle"@,
        s.generation < u64::MAX - 4,
    ensures
        ({
            let (s1, (started, old_generation)) = advance_spec(s, p);
            let (s2, _) = advance_spec(s1, "idle"@);
            let (s3, (restarted, new_generation)) = advance_spec(s2, q);
            &&& started
            &&& restarted
            &&& new_generation != old_generation
            &&& s3.generation == new_generation
        }),
{
}

/// A phase that continues a recording does not start a new one.
pub proof fn lemma_continuing_phase_keeps_generation(s: FeedbackView, p: Seq<char>, q: Seq<char>)
    requires
        s.phase == "idle"@,
        !s.preview,
        p != "idle"@,
        q != "idle"@,
    ensures
        ({
            let (s1, (_, g1)) = advance_spec(s, p);
            let (s2, (started, g2)) = advance_spec(s1, q);
            !started && g2 == g1
        }),
{
}

/// The end of a preview cannot hide a recording that started during it.
pub proof fn lemma_preview_end_spares_recording(s: FeedbackView, p: Seq<char>)
    requires
        s.phase == "idle"@,
        p != "idle"@,
        s.generation < u64::MAX - 4,
    ensures
        ({
            let preview = FeedbackView {
                phase: "recording"@,
                revision: bump(s.revision),
                failed: false,
                preview: true,
                generation: bump(s.generation),
            };
            let (s1, (started, _)) = advance_spec(preview, p);
            &&& started
            &&& !(s1.generation == preview.generation && s1.preview)
            &&& s1.phase == p
        }),
{
}

} // verus!
