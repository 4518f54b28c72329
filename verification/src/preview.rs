//! Bounded, advisory utterance previews. The recording is cut into
//! utterances by voice activity; final dictation always uses the original
//! PCM, so a preview can only be late or missing, never wrong in the result.
use crate::text::{chars_of, push_char, trim, trim_chars};
use vstd::prelude::*;

verus! {

/// Bytes per analysed frame: 16 ms of mono PCM16 at 16 kHz.
pub const FRAME: usize = 512;
/// Audio kept before the first voiced frame of an utterance.
pub const PRE: usize = 19 * FRAME;
/// Voiced frames an utterance needs to be worth transcribing.
pub const MIN_VOICE: usize = 6;
/// Quiet frames that close an utterance.
pub const END_SILENCE: usize = 44;
/// The longest utterance, in bytes, before it is cut.
pub const MAX_SEGMENT: usize = 750 * FRAME;

#[verifier::external_type_specification]
#[verifier::external_body]
#[verifier::reject_recursive_types(P)]
pub struct ExDetector<P>(earshot::Detector<P>);

#[verifier::external_type_specification]
#[verifier::external_body]
pub struct ExDefaultPredictor(earshot::DefaultPredictor);

/// The bits of the single-precision voice-activity score that earshot's
/// detector returns for the last of `frames`, after being handed `frames`
/// in order since it was made. earshot computes it from those frames alone,
/// with its fixed model weights, in software single precision (its `libm`
/// feature), so the same frames give the same score on every machine.
pub uninterp spec fn vad_bits(frames: Seq<Seq<i16>>) -> u32;

/// earshot's voice-activity detector, with the frames handed to it so far.
struct Vad {
    detector: earshot::Detector,
    fed: Ghost<Seq<Seq<i16>>>,
}

impl View for Vad {
    type V = Seq<Seq<i16>>;

    closed spec fn view(&self) -> Seq<Seq<i16>> {
        self.fed@
    }
}

impl Vad {
    /// `earshot::Detector::default`: a detector that has been handed nothing.
    #[verifier::external_body]
    fn new() -> (r: Self)
        ensures
            r@ == Seq::<Seq<i16>>::empty(),
    {
        Vad { detector: earshot::Detector::default(), fed: Ghost(Seq::empty()) }
    }

    /// `earshot::Detector::predict_i16` on one 256-sample frame: the frame
    /// joins those handed over, and the result is the bits of the score for
    /// that history.
    #[verifier::external_body]
    fn predict(&mut self, frame: &[i16]) -> (r: u32)
        requires
            frame@.len() == 256,
        ensures
            final(self)@ == old(self)@.push(frame@),
            r == vad_bits(final(self)@),
    {
        self.detector.predict_i16(frame).to_bits()
    }
}

/// Whether the single-precision value with these bits is at least one half:
/// a clear sign bit and a magnitude from 0.5 (`0x3F00_0000`) up to infinity
/// (`0x7F80_0000`). Negative values and NaNs are not.
pub open spec fn speech_score(bits: u32) -> bool {
    0x3F00_0000 <= bits <= 0x7F80_0000
}

fn is_speech(bits: u32) -> (r: bool)
    ensures
        r == speech_score(bits),
{
    0x3F00_0000 <= bits && bits <= 0x7F80_0000
}

/// The segmentation state: how far the audio has been analysed, where the
/// open utterance starts, and the voiced and quiet frames counted in it.
#[derive(Clone, Copy, Debug, PartialEq, Eq, Structural)]
pub struct SegState {
    pub cursor: usize,
    pub start: Option<usize>,
    pub voice: usize,
    pub quiet: usize,
    pub overlap: bool,
}

/// States the segmenter can be in: whole frames only, an open utterance
/// starts on a frame and spans less than the maximum, and the counters never
/// exceed the frames analysed.
pub open spec fn seg_wf(s: SegState) -> bool {
    &&& s.cursor % FRAME == 0
    &&& s.voice * FRAME <= s.cursor
    &&& s.quiet * FRAME <= s.cursor
    &&& s.start matches Some(st) ==> st <= s.cursor && st % FRAME == 0 && s.cursor - st
        < MAX_SEGMENT
}

pub open spec fn sat_sub(a: int, b: int) -> usize {
    if a >= b {
        (a - b) as usize
    } else {
        0
    }
}

/// One more frame analysed as `speech` or not. An utterance closes after
/// enough quiet or when it reaches the maximum length; it is handed out,
/// as (start, end, starts-with-overlap), only if it had enough voice. An
/// utterance cut while speech continues reopens with the pre-roll and is
/// marked as overlapping the previous one.
pub open spec fn step_spec(s: SegState, speech: bool) -> (SegState, Option<(usize, usize, bool)>) {
    let cursor = (s.cursor + FRAME) as usize;
    let start = if speech && s.start is None {
        Some(sat_sub(cursor as int, (FRAME + PRE) as int))
    } else {
        s.start
    };
    let voice = if speech {
        (s.voice + 1) as usize
    } else {
        s.voice
    };
    let quiet = if speech {
        0usize
    } else {
        (s.quiet + 1) as usize
    };
    let open = SegState { cursor, start, voice, quiet, overlap: s.overlap };
    match start {
        None => (open, None),
        Some(st) => {
            let forced = cursor - st >= MAX_SEGMENT;
            if quiet < END_SILENCE && !forced {
                (open, None)
            } else {
                let next = if forced && speech {
                    SegState {
                        cursor,
                        start: Some(sat_sub(cursor as int, PRE as int)),
                        voice: 0,
                        quiet: 0,
                        overlap: true,
                    }
                } else {
                    SegState { cursor, start: None, voice: 0, quiet: 0, overlap: false }
                };
                (next, if voice >= MIN_VOICE {
                    Some((st, cursor, s.overlap))
                } else {
                    None
                })
            }
        },
    }
}

/// The state after frames judged `ds`, provided none of them closed an
/// utterance that was handed out.
pub open spec fn quiet_run(s: SegState, ds: Seq<bool>) -> Option<SegState>
    decreases ds.len(),
{
    if ds.len() == 0 {
        Some(s)
    } else {
        match quiet_run(s, ds.drop_last()) {
            Some(t) => {
                let (u, out) = step_spec(t, ds.last());
                if out is None {
                    Some(u)
                } else {
                    None
                }
            },
            None => None,
        }
    }
}

/// From `s`, frames judged `ds` close nothing handed out, and a last frame
/// judged `last` then closes `seg` and leaves `t`.
pub open spec fn emits(
    s: SegState,
    ds: Seq<bool>,
    last: bool,
    t: SegState,
    seg: (usize, usize, bool),
) -> bool {
    quiet_run(s, ds) matches Some(u) && step_spec(u, last) == (t, Some(seg))
}

/// One frame analysed as `speech` or not, from a well-formed state.
fn step_state(s: SegState, speech: bool) -> (r: (SegState, Option<(usize, usize, bool)>))
    requires
        seg_wf(s),
        s.cursor + FRAME <= usize::MAX,
    ensures
        r == step_spec(s, speech),
        seg_wf(r.0),
{
    proof {
        lemma_segments_are_bounded(s, speech);
    }
    let cursor = s.cursor + FRAME;
    let mut start = s.start;
    let mut voice = s.voice;
    let mut quiet = s.quiet;
    if speech {
        if start.is_none() {
            start = Some(
                if cursor >= FRAME + PRE {
                    cursor - (FRAME + PRE)
                } else {
                    0
                },
            );
        }
        voice = voice + 1;
        quiet = 0;
    } else {
        quiet = quiet + 1;
    }
    let open = SegState { cursor, start, voice, quiet, overlap: s.overlap };
    let st = match start {
        Some(st) => st,
        None => {
            return (open, None);
        },
    };
    let forced = cursor - st >= MAX_SEGMENT;
    if quiet < END_SILENCE && !forced {
        return (open, None);
    }
    let next = if forced && speech {
        SegState {
            cursor,
            start: Some(
                if cursor >= PRE {
                    cursor - PRE
                } else {
                    0
                },
            ),
            voice: 0,
            quiet: 0,
            overlap: true,
        }
    } else {
        SegState { cursor, start: None, voice: 0, quiet: 0, overlap: false }
    };
    if voice >= MIN_VOICE {
        (next, Some((st, cursor, s.overlap)))
    } else {
        (next, None)
    }
}

/// The segmentation state, always well-formed.
struct Counters {
    state: SegState,
}

impl Counters {
    #[verifier::type_invariant]
    spec fn well_formed(self) -> bool {
        seg_wf(self.state)
    }
}

/// Cuts recorded PCM into utterances with a voice-activity detector.
pub struct Segmenter {
    vad: Vad,
    counters: Counters,
}

impl View for Segmenter {
    type V = SegState;

    closed spec fn view(&self) -> SegState {
        self.counters.state
    }
}

/// The `k` frames of `pcm` that start at byte `at`, one frame apart.
pub open spec fn frames_at(pcm: Seq<u8>, at: int, k: nat) -> Seq<Seq<i16>> {
    Seq::new(k, |i: int| frame_samples(pcm, at + i * FRAME))
}

/// The detector's verdict on each of `frames`, handed over in order after
/// the frames `history`: speech when the score for everything handed over
/// up to that frame is at least one half.
pub open spec fn verdicts(history: Seq<Seq<i16>>, frames: Seq<Seq<i16>>) -> Seq<bool> {
    Seq::new(frames.len(), |i: int| speech_score(vad_bits(history + frames.take(i + 1))))
}

impl Segmenter {
    /// The frames handed to the detector so far, in order.
    pub closed spec fn fed(&self) -> Seq<Seq<i16>> {
        self.vad@
    }

    /// Nothing analysed yet, and nothing handed to the detector.
    pub fn new() -> (r: Self)
        ensures
            r@ == (SegState { cursor: 0, start: None, voice: 0, quiet: 0, overlap: false }),
            r.fed() == Seq::<Seq<i16>>::empty(),
    {
        Segmenter {
            vad: Vad::new(),
            counters: Counters {
                state: SegState { cursor: 0, start: None, voice: 0, quiet: 0, overlap: false },
            },
        }
    }

    /// How far the audio has been analysed, in bytes.
    pub fn cursor(&self) -> (r: usize)
        ensures
            r == self@.cursor,
    {
        self.counters.state.cursor
    }

    /// Analyses the next frame, judged `speech` or not, and hands out the
    /// utterance it closes, if any.
    pub fn step(&mut self, speech: bool) -> (r: Option<(usize, usize, bool)>)
        requires
            old(self)@.cursor + FRAME <= usize::MAX,
        ensures
            (final(self)@, r) == step_spec(old(self)@, speech),
            final(self).fed() == old(self).fed(),
            seg_wf(old(self)@),
            seg_wf(final(self)@),
    {
        proof {
            use_type_invariant(&self.counters);
        }
        let (next, out) = step_state(self.counters.state, speech);
        self.counters = Counters { state: next };
        out
    }

    /// Analyses every whole frame of `pcm` past the cursor until one closes
    /// an utterance worth transcribing, and hands that utterance out as
    /// (start, end, starts-with-overlap). The frames analysed are handed to
    /// the detector in order, and its verdicts on them move the state as
    /// `step_spec` says; `None` means every whole frame has been analysed.
    pub fn next(&mut self, pcm: &[u8]) -> (r: Option<(usize, usize, bool)>)
        ensures
            seg_wf(final(self)@),
            ({
                let k = ((final(self)@.cursor - old(self)@.cursor) / FRAME as int) as nat;
                let frames = frames_at(pcm@, old(self)@.cursor as int, k);
                let ds = verdicts(old(self).fed(), frames);
                &&& final(self)@.cursor == old(self)@.cursor + k * FRAME
                &&& k > 0 ==> final(self)@.cursor <= pcm@.len()
                &&& final(self).fed() == old(self).fed() + frames
                &&& r is None ==> pcm@.len() < final(self)@.cursor + FRAME && quiet_run(
                    old(self)@,
                    ds,
                ) == Some(final(self)@)
                &&& r matches Some(seg) ==> k > 0 && emits(
                    old(self)@,
                    ds.drop_last(),
                    ds.last(),
                    final(self)@,
                    seg,
                )
            }),
    {
        proof {
            use_type_invariant(&self.counters);
        }
        let ghost start = self@;
        let ghost h = self.fed();
        let ghost mut k: nat = 0;
        let ghost mut ds: Seq<bool> = Seq::empty();
        loop
            invariant
                seg_wf(self@),
                start == old(self)@,
                h == old(self).fed(),
                self@.cursor == start.cursor + k * FRAME,
                k > 0 ==> self@.cursor <= pcm@.len(),
                self.fed() == h + frames_at(pcm@, start.cursor as int, k),
                ds == verdicts(h, frames_at(pcm@, start.cursor as int, k)),
                quiet_run(start, ds) == Some(self@),
            decreases pcm@.len() - self@.cursor,
        {
            if self.counters.state.cursor > pcm.len() || pcm.len() - self.counters.state.cursor
                < FRAME {
                assert(pcm@.len() < self@.cursor + FRAME);
                assert((self@.cursor - start.cursor) / FRAME as int == k) by (nonlinear_arith)
                    requires
                        self@.cursor - start.cursor == k * FRAME,
                ;
                return None;
            }
            let ghost fs = frames_at(pcm@, start.cursor as int, k);
            let ghost fs1 = frames_at(pcm@, start.cursor as int, k + 1);
            let frame = decode_frame(pcm, self.counters.state.cursor);
            let bits = self.vad.predict(frame.as_slice());
            let speech = is_speech(bits);
            let ghost prev = ds;
            proof {
                assert(fs1.take(k as int) =~= fs);
                assert(fs1[k as int] == frame@);
                assert(fs1 =~= fs.push(frame@));
                assert(self.fed() =~= h + fs1);
                assert(fs1.take(k + 1 as int) =~= fs1);
                assert forall|i: int| 0 <= i < k implies #[trigger] fs1.take(i + 1) =~= fs.take(i + 1) by {}
                assert(verdicts(h, fs1) =~= prev.push(speech));
            }
            let out = self.step(speech);
            proof {
                k = k + 1;
                ds = prev.push(speech);
                assert(ds.drop_last() =~= prev);
            }
            match out {
                Some(seg) => {
                    assert(emits(old(self)@, prev, speech, self@, seg));
                    assert((self@.cursor - start.cursor) / FRAME as int == k) by (nonlinear_arith)
                        requires
                            self@.cursor - start.cursor == k * FRAME,
                    ;
                    return Some(seg);
                },
                None => {},
            }
        }
    }
}

impl Default for Segmenter {
    fn default() -> (r: Self)
        ensures
            r@ == (SegState { cursor: 0, start: None, voice: 0, quiet: 0, overlap: false }),
    {
        Segmenter::new()
    }
}

/// The little-endian samples of one frame starting at `at`.
pub open spec fn frame_samples(pcm: Seq<u8>, at: int) -> Seq<i16> {
    Seq::new(
        256,
        |i: int| (pcm[at + 2 * i] as int + pcm[at + 2 * i + 1] as int * 256) as u16 as i16,
    )
}

/// Decodes the 256 little-endian PCM16 samples of the frame at `at`.
pub fn decode_frame(pcm: &[u8], at: usize) -> (r: Vec<i16>)
    requires
        at + FRAME <= pcm@.len(),
    ensures
        r@ == frame_samples(pcm@, at as int),
        r@.len() == 256,
{
    let n = pcm.len();
    let mut out: Vec<i16> = Vec::new();
    let mut i: usize = 0;
    while i < 256
        invariant
            n == pcm@.len(),
            at + FRAME <= pcm@.len(),
            i <= 256,
            out@.len() == i,
            forall|k: int| 0 <= k < i ==> out@[k] == frame_samples(pcm@, at as int)[k],
        decreases 256 - i,
    {
        let lo = pcm[at + 2 * i] as u16;
        let hi = pcm[at + 2 * i + 1] as u16;
        let w: u16 = lo + hi * 256;
        let v = w as i16;
        out.push(v);
        i = i + 1;
    }
    assert(out@ =~= frame_samples(pcm@, at as int));
    out
}


/// Whether `t` ends with the first `k` characters of `p`.
pub open spec fn ends_with_prefix(t: Seq<char>, p: Seq<char>, k: int) -> bool {
    0 <= k <= p.len() && k <= t.len() && t.subrange(t.len() - k, t.len() as int) == p.take(k)
}

/// The longest run of at least two leading characters of `p`, no longer
/// than `k`, that `t` already ends with; 0 if there is none.
pub open spec fn overlap_from(t: Seq<char>, p: Seq<char>, k: int) -> int
    decreases k,
{
    if k < 2 {
        0
    } else if ends_with_prefix(t, p, k) {
        k
    } else {
        overlap_from(t, p, k - 1)
    }
}

/// The preview text after appending the transcript `part` of the next
/// utterance. Blank parts change nothing. After a forced cut (`overlap`) the
/// repeated words are dropped: the longest beginning of the part, at least
/// two characters, that the text already ends with. Otherwise a space
/// separates the part from existing text.
pub open spec fn appended(t: Seq<char>, part: Seq<char>, overlap: bool) -> Seq<char> {
    let p = trim(part);
    if p.len() == 0 {
        t
    } else {
        let skip = if overlap {
            overlap_from(t, p, p.len() as int)
        } else {
            0
        };
        if skip == p.len() {
            t
        } else if t.len() > 0 && skip == 0 {
            t + seq![' '] + p
        } else {
            t + p.skip(skip)
        }
    }
}

fn ends_with_prefix_exec(t: &[char], p: &[char], k: usize) -> (r: bool)
    requires
        k <= p@.len(),
    ensures
        r == ends_with_prefix(t@, p@, k as int),
{
    if k > t.len() {
        return false;
    }
    let n = t.len();
    let base = n - k;
    let mut i: usize = 0;
    while i < k
        invariant
            n == t@.len(),
            k <= p@.len(),
            k <= t@.len(),
            base == t@.len() - k,
            i <= k,
            forall|m: int| 0 <= m < i ==> t@[base + m] == p@[m],
        decreases k - i,
    {
        if t[base + i] != p[i] {
            assert(t@.subrange(base as int, t@.len() as int)[i as int] != p@.take(k as int)[i as int]);
            return false;
        }
        i = i + 1;
    }
    assert(t@.subrange(base as int, t@.len() as int) =~= p@.take(k as int));
    true
}

/// Appends the transcript of the next utterance to the preview text.
pub fn append(text: &mut String, part: &str, overlap: bool)
    ensures
        final(text)@ == appended(old(text)@, part@, overlap),
{
    let whole = chars_of(part);
    let p = trim_chars(&whole);
    if p.len() == 0 {
        return;
    }
    let t = chars_of(text.as_str());
    let mut skip: usize = 0;
    if overlap {
        let mut k: usize = p.len();
        let mut found = false;
        while !found && k >= 2
            invariant
                k <= p@.len(),
                found ==> overlap_from(t@, p@, p@.len() as int) == k && k >= 2,
                !found ==> overlap_from(t@, p@, p@.len() as int) == overlap_from(t@, p@, k as int),
            decreases
                if found {
                    0
                } else {
                    k + 1
                },
        {
            if ends_with_prefix_exec(&t, &p, k) {
                found = true;
            } else {
                k = k - 1;
            }
        }
        if found {
            skip = k;
        }
    }
    if skip == p.len() {
        return;
    }
    if t.len() > 0 && skip == 0 {
        push_char(text, ' ');
    }
    let ghost before = text@;
    let mut i: usize = skip;
    while i < p.len()
        invariant
            skip <= i <= p@.len(),
            text@ == before + p@.subrange(skip as int, i as int),
        decreases p@.len() - i,
    {
        push_char(text, p[i]);
        i = i + 1;
        assert(text@ =~= before + p@.subrange(skip as int, i as int));
    }
    assert(p@.subrange(skip as int, p@.len() as int) =~= p@.skip(skip as int));
    assert(seq![' '] + p@.skip(0) =~= seq![' '] + p@);
}

/// Without a forced cut nothing is dropped: a non-blank part is appended
/// whole, after a space when there is text already.
pub proof fn lemma_plain_append(t: Seq<char>, part: Seq<char>)
    ensures
        appended(t, part, false) == if trim(part).len() == 0 {
            t
        } else if t.len() == 0 {
            trim(part)
        } else {
            t + seq![' '] + trim(part)
        },
{
    assert(trim(part).skip(0) =~= trim(part));
    assert(Seq::<char>::empty() + trim(part).skip(0) =~= trim(part));
}

/// Appending never changes text already shown.
pub proof fn lemma_append_keeps_text(t: Seq<char>, part: Seq<char>, overlap: bool)
    ensures
        appended(t, part, overlap).len() >= t.len(),
        appended(t, part, overlap).subrange(0, t.len() as int) == t,
{
    let r = appended(t, part, overlap);
    assert(r.subrange(0, t.len() as int) =~= t);
}

proof fn lemma_frame_multiple(d: int)
    requires
        0 <= d < MAX_SEGMENT,
        d % (FRAME as int) == 0,
    ensures
        d + FRAME <= MAX_SEGMENT,
{
}

/// Every utterance handed out ends at the frame just analysed, is not empty
/// and is never longer than the maximum segment, and the state stays
/// well-formed.
pub proof fn lemma_segments_are_bounded(s: SegState, speech: bool)
    requires
        seg_wf(s),
        s.cursor + FRAME <= usize::MAX,
    ensures
        seg_wf(step_spec(s, speech).0),
        step_spec(s, speech).1 matches Some(seg) ==> seg.0 < seg.1 && seg.1 == s.cursor + FRAME
            && seg.1 - seg.0 <= MAX_SEGMENT,
{
    if let Some(st) = s.start {
        lemma_frame_multiple(s.cursor - st);
    }
}

/// Analysing only silence from a closed state never hands out an utterance
/// and never opens one.
pub proof fn lemma_silence_never_emits(s: SegState, ds: Seq<bool>)
    requires
        s.start is None,
        s.cursor + ds.len() * FRAME <= usize::MAX,
        s.quiet + ds.len() <= usize::MAX,
        forall|i: int| 0 <= i < ds.len() ==> !ds[i],
    ensures
        quiet_run(s, ds) matches Some(t) && t.start is None && t.cursor == s.cursor + ds.len()
            * FRAME,
    decreases ds.len(),
{
    if ds.len() > 0 {
        let prev = ds.drop_last();
        assert forall|i: int| 0 <= i < prev.len() implies !prev[i] by {
            assert(prev[i] == ds[i]);
        }
        lemma_silence_never_emits(s, prev);
        assert(!ds.last());
    }
}

/// A cut forced by length while speech continues reopens the utterance a
/// pre-roll before the cut and marks it as overlapping; a cut by silence
/// leaves nothing open.
pub proof fn lemma_forced_cut_overlaps(s: SegState, speech: bool)
    requires
        seg_wf(s),
        s.cursor + FRAME <= usize::MAX,
        step_spec(s, speech).1 is Some,
    ensures
        speech ==> step_spec(s, speech).0.start == Some((s.cursor + FRAME - PRE) as usize)
            && step_spec(s, speech).0.overlap,
        !speech ==> step_spec(s, speech).0.start is None && !step_spec(s, speech).0.overlap,
{
    if let Some(st) = s.start {
        lemma_frame_multiple(s.cursor - st);
    }
}

/// Transcribed preview text is capped at 64 KiB; past it the preview stops.
pub const MAX_PREVIEW_TEXT: usize = 65536;

/// Whether preview text of this many bytes may still be shown.
pub fn within_text_cap(text_bytes: usize) -> (r: bool)
    ensures
        r == (text_bytes <= MAX_PREVIEW_TEXT),
{
    text_bytes <= MAX_PREVIEW_TEXT
}

/// Whether transcribing a part kept pace with the audio: it may take as
/// long as the audio it covers, and at least two seconds. Slow hardware
/// falls back to final-only transcription before a backlog grows.
pub fn keeps_pace(elapsed_ms: u64, pcm_bytes: usize) -> (r: bool)
    ensures
        r == (elapsed_ms <= if pcm_bytes / 32 > 2000 {
            pcm_bytes / 32
        } else {
            2000
        }),
{
    let audio_ms = pcm_bytes / 32;
    let budget: u64 = if audio_ms > 2000 {
        audio_ms as u64
    } else {
        2000
    };
    elapsed_ms <= budget
}


proof fn lemma_no_overlap(t: Seq<char>, p: Seq<char>, k: int)
    requires
        k <= p.len(),
        forall|j: int|
            2 <= j <= p.len() && j <= t.len() ==> #[trigger] t.subrange(t.len() - j, t.len() as int)
                != p.take(j),
    ensures
        overlap_from(t, p, k) == 0,
    decreases k,
{
    if k >= 2 {
        if k <= t.len() {
            assert(t.subrange(t.len() - k, t.len() as int) != p.take(k));
        }
        lemma_no_overlap(t, p, k - 1);
    }
}

/// When no beginning of the part, at least two characters long, already
/// ends the text, the part is added whole after a separating space,
/// whether or not the cut was forced: overlap only drops repeated
/// characters, never the space between words.
pub proof fn lemma_unrepeated_part_gets_a_space(t: Seq<char>, part: Seq<char>, overlap: bool)
    requires
        trim(part).len() > 0,
        t.len() > 0,
        forall|j: int|
            2 <= j <= trim(part).len() && j <= t.len() ==> #[trigger] t.subrange(
                t.len() - j,
                t.len() as int,
            ) != trim(part).take(j),
    ensures
        appended(t, part, overlap) == t + seq![' '] + trim(part),
{
    lemma_no_overlap(t, trim(part), trim(part).len() as int);
}

} // verus!
