//! Decisions of the microphone capture thread: its reported state, the size
//! of the queue towards the speech provider, the first fault that cancels a
//! recording, the single-owner microphone lease, and PCM chunk framing.
use vstd::prelude::*;

verus! {

#[derive(Debug, Clone, Copy, PartialEq, Eq, Structural)]
pub enum CaptureState {
    Idle,
    Starting,
    Recording,
}

/// A capture starts as `Starting`: it does not report recording before the
/// backend has confirmed that the stream plays.
pub fn initial_capture_state() -> (r: CaptureState)
    ensures
        r == CaptureState::Starting,
{
    CaptureState::Starting
}

#[derive(Debug, Clone, Copy)]
pub struct AudioConfig {
    pub sample_rate: u32,
    pub channels: u16,
    pub chunk_duration_ms: u32,
}

impl Default for AudioConfig {
    /// 16 kHz mono in 20 ms chunks.
    fn default() -> (r: Self)
        ensures
            r.sample_rate == 16000,
            r.channels == 1,
            r.chunk_duration_ms == 20,
    {
        AudioConfig { sample_rate: 16000, channels: 1, chunk_duration_ms: 20 }
    }
}

/// Samples buffered before capture gives up (about 12.5 minutes at 16 kHz).
pub const MAX_BUFFER_SAMPLES: usize = 12582912;

/// The queue towards the provider holds this much audio.
pub const AUDIO_CHANNEL_BUFFER_DURATION_MS: u32 = 60000;

/// Chunks needed to hold a minute of audio: 60000 ms divided by the chunk
/// length (at least 1 ms), rounded up.
pub open spec fn channel_capacity(chunk_duration_ms: u32) -> int {
    let d: int = if chunk_duration_ms < 1 { 1 } else { chunk_duration_ms as int };
    (AUDIO_CHANNEL_BUFFER_DURATION_MS + d - 1) / d
}

pub fn audio_channel_capacity(config: &AudioConfig) -> (r: usize)
    ensures
        r == channel_capacity(config.chunk_duration_ms),
{
    let d: u32 = if config.chunk_duration_ms < 1 { 1 } else { config.chunk_duration_ms };
    let q = AUDIO_CHANNEL_BUFFER_DURATION_MS / d;
    let r = if AUDIO_CHANNEL_BUFFER_DURATION_MS % d == 0 { q } else { q + 1 };
    proof {
        let n = AUDIO_CHANNEL_BUFFER_DURATION_MS as int;
        let di = d as int;
        assert(n == di * (n / di) + n % di) by (nonlinear_arith)
            requires di > 0;
        assert((n + di - 1) / di == if n % di == 0 { n / di } else { n / di + 1 }) by (nonlinear_arith)
            requires di > 0, n == di * (n / di) + n % di, 0 <= n % di < di;
    }
    r as usize
}

/// Why a capture failed: 1 the provider could not keep up, 2 the receiver
/// went away, 3 the device stopped. 0 is no fault.
pub struct CaptureFault {
    code: u8,
    dropped_bytes: u64,
}

impl View for CaptureFault {
    type V = (u8, u64);

    closed spec fn view(&self) -> (u8, u64) {
        (self.code, self.dropped_bytes)
    }
}

/// The fault code after reporting `code` in state `current`: the first
/// non-zero code is kept.
pub open spec fn next_code(current: u8, code: u8) -> u8 {
    if current == 0 { code } else { current }
}

/// The fault code after a sequence of reports.
pub open spec fn code_after(start: u8, codes: Seq<u8>) -> u8
    decreases codes.len(),
{
    if codes.len() == 0 {
        start
    } else {
        code_after(next_code(start, codes[0]), codes.drop_first())
    }
}

pub open spec fn fault_reason(code: u8) -> Seq<char> {
    if code == 1 {
        "Audio processing could not keep up with the microphone"@
    } else if code == 2 {
        "The audio receiver disconnected"@
    } else {
        "The microphone stopped working"@
    }
}

impl CaptureFault {
    pub fn new() -> (r: Self)
        ensures
            r@ == (0u8, 0u64),
    {
        CaptureFault { code: 0, dropped_bytes: 0 }
    }

    /// Records a fault and the audio it cost. The dropped-byte counter wraps
    /// like the atomic it stands for; the code changes only from 0, and the
    /// result says whether it did (the waiter is woken then).
    pub fn report(&mut self, code: u8, dropped_bytes: u64) -> (changed: bool)
        ensures
            final(self)@.0 == next_code(old(self)@.0, code),
            final(self)@.1 == (old(self)@.1 + dropped_bytes) % 0x1_0000_0000_0000_0000,
            changed == (old(self)@.0 == 0),
    {
        self.dropped_bytes = self.dropped_bytes.wrapping_add(dropped_bytes);
        if self.code == 0 {
            self.code = code;
            true
        } else {
            false
        }
    }

    pub fn failed(&self) -> (r: bool)
        ensures
            r == (self@.0 != 0),
    {
        self.code != 0
    }

    pub fn code(&self) -> (r: u8)
        ensures
            r == self@.0,
    {
        self.code
    }

    pub fn dropped_bytes(&self) -> (r: u64)
        ensures
            r == self@.1,
    {
        self.dropped_bytes
    }

    /// The message shown when a recording is discarded for this fault.
    pub fn message(&self) -> (r: String)
        ensures
            r@ == fault_reason(self@.0)
                + ". Recording was cancelled to avoid inserting incomplete text. Please try again."@,
    {
        let mut s = if self.code == 1 {
            String::from_str("Audio processing could not keep up with the microphone")
        } else if self.code == 2 {
            String::from_str("The audio receiver disconnected")
        } else {
            String::from_str("The microphone stopped working")
        };
        s.append(". Recording was cancelled to avoid inserting incomplete text. Please try again.");
        s
    }
}

/// Once a fault is recorded, no later report replaces its code.
pub proof fn lemma_first_fault_wins(start: u8, codes: Seq<u8>)
    requires
        start != 0,
    ensures
        code_after(start, codes) == start,
    decreases codes.len(),
{
    if codes.len() > 0 {
        lemma_first_fault_wins(start, codes.drop_first());
    }
}

/// What happened to a chunk offered to the provider queue.
pub enum SendOutcome {
    Sent,
    Full,
    Closed,
}

/// A full queue is fault 1, a closed one fault 2; both count the chunk as
/// dropped. A delivered chunk changes nothing.
pub fn record_send(fault: &mut CaptureFault, outcome: SendOutcome, len: u64)
    ensures
        outcome is Sent ==> final(fault)@ == old(fault)@,
        outcome is Full ==> final(fault)@ == (next_code(old(fault)@.0, 1), ((old(fault)@.1 + len)
            % 0x1_0000_0000_0000_0000) as u64),
        outcome is Closed ==> final(fault)@ == (next_code(old(fault)@.0, 2), ((old(fault)@.1
            + len) % 0x1_0000_0000_0000_0000) as u64),
{
    match outcome {
        SendOutcome::Sent => {},
        SendOutcome::Full => {
            fault.report(1, len);
        },
        SendOutcome::Closed => {
            fault.report(2, len);
        },
    }
}

pub open spec fn lease_busy_message() -> Seq<char> {
    "Microphone is already in use by another H recording"@
}

/// The right to record from the one physical microphone that dictation,
/// Ask and practice share. It is held until the native stream is gone.
pub struct CaptureLease {
    _held: (),
}

impl CaptureLease {
    /// Takes the microphone when nobody holds it; `held` is the shared flag.
    pub fn acquire(held: &mut bool) -> (r: Result<CaptureLease, String>)
        ensures
            *old(held) ==> (r matches Err(m) && m@ == lease_busy_message() && *final(held)),
            !*old(held) ==> (r is Ok && *final(held)),
    {
        if *held {
            return Err(String::from_str("Microphone is already in use by another H recording"));
        }
        *held = true;
        Ok(CaptureLease { _held: () })
    }

    /// Gives the microphone back once the stream is torn down.
    pub fn release(self, held: &mut bool)
        ensures
            !*final(held),
    {
        *held = false;
    }
}

/// Little-endian bytes of a PCM16 sample sequence.
pub open spec fn pcm_bytes(samples: Seq<i16>) -> Seq<u8>
    decreases samples.len(),
{
    if samples.len() == 0 {
        Seq::empty()
    } else {
        pcm_bytes(samples.drop_last()) + seq![
            (samples.last() as u16 % 256) as u8,
            (samples.last() as u16 / 256) as u8,
        ]
    }
}

/// Encodes samples as little-endian PCM16 bytes, two per sample.
pub fn to_le_bytes(samples: &[i16]) -> (r: Vec<u8>)
    ensures
        r@ == pcm_bytes(samples@),
{
    let mut out: Vec<u8> = Vec::new();
    let mut i: usize = 0;
    while i < samples.len()
        invariant
            i <= samples@.len(),
            out@ == pcm_bytes(samples@.subrange(0, i as int)),
        decreases samples@.len() - i,
    {
        proof {
            assert(samples@.subrange(0, i + 1).drop_last() =~= samples@.subrange(0, i as int));
        }
        let u = samples[i] as u16;
        out.push((u % 256) as u8);
        out.push((u / 256) as u8);
        i = i + 1;
        assert(out@ =~= pcm_bytes(samples@.subrange(0, i as int)));
    }
    assert(samples@.subrange(0, samples@.len() as int) =~= samples@);
    out
}

/// Moves every complete chunk of `per_chunk` samples out of `buffer`, in
/// order, as PCM16 bytes; fewer than `per_chunk` samples stay buffered.
pub fn drain_chunks(buffer: &mut Vec<i16>, per_chunk: usize) -> (r: Vec<Vec<u8>>)
    requires
        per_chunk > 0,
    ensures
        final(buffer)@.len() < per_chunk,
        r@.len() * per_chunk + final(buffer)@.len() == old(buffer)@.len(),
        final(buffer)@ == old(buffer)@.skip(r@.len() * per_chunk),
        forall|k: int|
            0 <= k < r@.len() ==> #[trigger] r@[k]@ == pcm_bytes(
                old(buffer)@.subrange(k * per_chunk, (k + 1) * per_chunk),
            ),
{
    let ghost all = buffer@;
    let n = buffer.len();
    let mut out: Vec<Vec<u8>> = Vec::new();
    let mut start: usize = 0;
    assert(out@.len() * per_chunk == 0) by (nonlinear_arith)
        requires out@.len() == 0;
    while n - start >= per_chunk
        invariant
            per_chunk > 0,
            n == all.len(),
            buffer@ == all,
            start <= n,
            start == out@.len() * per_chunk,
            forall|k: int|
                0 <= k < out@.len() ==> #[trigger] out@[k]@ == pcm_bytes(
                    all.subrange(k * per_chunk, (k + 1) * per_chunk),
                ),
        decreases n - start,
    {
        let mut chunk: Vec<i16> = Vec::new();
        let mut i: usize = 0;
        while i < per_chunk
            invariant
                buffer@ == all,
                start + per_chunk <= n == all.len(),
                i <= per_chunk,
                chunk@ == all.subrange(start as int, start + i),
            decreases per_chunk - i,
        {
            chunk.push(buffer[start + i]);
            i = i + 1;
            assert(chunk@ =~= all.subrange(start as int, start + i));
        }
        let bytes = to_le_bytes(&chunk);
        proof {
            let k = out@.len() as int;
            assert((k + 1) * per_chunk == k * per_chunk + per_chunk) by (nonlinear_arith);
        }
        out.push(bytes);
        start = start + per_chunk;
        proof {
            assert(start == out@.len() * per_chunk) by (nonlinear_arith)
                requires start == (out@.len() - 1) * per_chunk + per_chunk;
        }
    }
    let mut rest: Vec<i16> = Vec::new();
    let mut j = start;
    while j < n
        invariant
            buffer@ == all,
            start <= j <= n == all.len(),
            rest@ == all.subrange(start as int, j as int),
        decreases n - j,
    {
        rest.push(buffer[j]);
        j = j + 1;
        assert(rest@ =~= all.subrange(start as int, j as int));
    }
    *buffer = rest;
    assert(all.skip(start as int) =~= all.subrange(start as int, n as int));
    out
}

/// Samples per provider chunk: the target rate times the chunk length in
/// milliseconds, over 1000.
pub fn samples_per_chunk(config: &AudioConfig) -> (r: usize)
    requires
        config.sample_rate * config.chunk_duration_ms <= u32::MAX,
    ensures
        r == config.sample_rate * config.chunk_duration_ms / 1000,
{
    (config.sample_rate * config.chunk_duration_ms / 1000) as usize
}

/// Buffers converted samples up to the capture limit. If the limit is
/// reached, the samples that still fit are kept and the rest are refused:
/// the result is then `false`, and the recording must fail for overflow.
pub fn buffer_samples(buffer: &mut Vec<i16>, samples: &[i16]) -> (kept_all: bool)
    ensures
        old(buffer)@.len() >= MAX_BUFFER_SAMPLES ==> final(buffer)@ == old(buffer)@ && (kept_all
            == (samples@.len() == 0)),
        old(buffer)@.len() < MAX_BUFFER_SAMPLES ==> ({
            let room = MAX_BUFFER_SAMPLES - old(buffer)@.len();
            &&& kept_all == (samples@.len() <= room)
            &&& final(buffer)@ == old(buffer)@ + if samples@.len() <= room {
                samples@
            } else {
                samples@.take(room)
            }
        }),
{
    let ghost start = buffer@;
    let mut i: usize = 0;
    while i < samples.len()
        invariant
            start == old(buffer)@,
            i <= samples@.len(),
            buffer@ == start + samples@.take(i as int),
            start.len() < MAX_BUFFER_SAMPLES ==> i <= MAX_BUFFER_SAMPLES - start.len(),
            start.len() >= MAX_BUFFER_SAMPLES ==> i == 0,
        decreases samples@.len() - i,
    {
        if buffer.len() >= MAX_BUFFER_SAMPLES {
            return false;
        }
        buffer.push(samples[i]);
        i = i + 1;
        assert(buffer@ =~= start + samples@.take(i as int));
    }
    assert(samples@.take(samples@.len() as int) =~= samples@);
    true
}

} // verus!
