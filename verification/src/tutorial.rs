//! The bounded practice session: one at a time, addressed by its id, and
//! stopped or cancelled only by signals for that id.
use crate::polish::{utf8_len, utf8_width};
use crate::text::{chars_of, eq_lit};
use vstd::prelude::*;

verus! {

/// Practice runs only in the main window.
pub fn require_main(label: &str) -> (r: Result<(), String>)
    ensures
        label@ == "main"@ ==> r is Ok,
        label@ != "main"@ ==> (r matches Err(m) && m@
            == "Practice is only available in the main window"@),
{
    if eq_lit(&chars_of(label), "main") {
        Ok(())
    } else {
        Err(String::from_str("Practice is only available in the main window"))
    }
}

/// Signal values: nothing yet, stop recording, cancel the session.
pub const SIGNAL_NONE: u8 = 0;
pub const SIGNAL_STOP: u8 = 1;
pub const SIGNAL_CANCEL: u8 = 2;

/// The slot after a stop (or cancel) signal for `id`: only the session
/// with that id receives it.
pub open spec fn signalled(s: Option<(Seq<char>, u8)>, id: Seq<char>, cancel: bool) -> Option<
    (Seq<char>, u8),
> {
    match s {
        Some((current, signal)) => if current == id {
            Some(
                (current, if cancel {
                    SIGNAL_CANCEL
                } else {
                    SIGNAL_STOP
                }),
            )
        } else {
            s
        },
        None => None,
    }
}

/// The practice session slot.
pub struct Practice {
    session: Option<(String, u8)>,
}

impl View for Practice {
    type V = Option<(Seq<char>, u8)>;

    closed spec fn view(&self) -> Option<(Seq<char>, u8)> {
        match self.session {
            Some((id, signal)) => Some((id@, signal)),
            None => None,
        }
    }
}

/// A session id is one to 64 bytes of UTF-8.
pub open spec fn valid_session_id(id: Seq<char>) -> bool {
    id.len() > 0 && utf8_len(id) <= 64
}

proof fn lemma_utf8_len_prefix(s: Seq<char>, k: int)
    requires
        0 <= k <= s.len(),
    ensures
        utf8_len(s.take(k)) <= utf8_len(s),
    decreases s.len(),
{
    if k < s.len() {
        assert(s.drop_last().take(k) =~= s.take(k));
        lemma_utf8_len_prefix(s.drop_last(), k);
    } else {
        assert(s.take(k) =~= s);
    }
}

/// Whether `s` encodes to at most `cap` bytes of UTF-8.
fn utf8_within(s: &[char], cap: usize) -> (r: bool)
    ensures
        r == (utf8_len(s@) <= cap),
{
    let mut total: usize = 0;
    let mut i: usize = 0;
    while i < s.len()
        invariant
            i <= s@.len(),
            total == utf8_len(s@.take(i as int)),
            total <= cap,
        decreases s@.len() - i,
    {
        proof {
            assert(s@.take(i + 1).drop_last() =~= s@.take(i as int));
        }
        let c = s[i] as u32;
        let w: usize = if c < 0x80 {
            1
        } else if c < 0x800 {
            2
        } else if c < 0x1_0000 {
            3
        } else {
            4
        };
        assert(w == utf8_width(s@[i as int]));
        if w > cap - total {
            proof {
                lemma_utf8_len_prefix(s@, i + 1);
            }
            return false;
        }
        total = total + w;
        i = i + 1;
    }
    assert(s@.take(s@.len() as int) =~= s@);
    true
}

impl Practice {
    pub fn new() -> (r: Self)
        ensures
            r@ is None,
    {
        Practice { session: None }
    }

    /// Opens session `id`; refused for an invalid id or while one runs.
    pub fn start(&mut self, id: &str) -> (r: Result<(), String>)
        ensures
            !valid_session_id(id@) ==> (r matches Err(m) && m@ == "Invalid practice session"@
                && final(self)@ == old(self)@),
            valid_session_id(id@) && old(self)@ is Some ==> (r matches Err(m) && m@
                == "A practice session is already running"@ && final(self)@ == old(self)@),
            valid_session_id(id@) && old(self)@ is None ==> (r is Ok && final(self)@ == Some(
                (id@, SIGNAL_NONE),
            )),
    {
        let c = chars_of(id);
        if c.len() == 0 || !utf8_within(&c, 64) {
            return Err(String::from_str("Invalid practice session"));
        }
        if self.session.is_some() {
            return Err(String::from_str("A practice session is already running"));
        }
        self.session = Some((String::from_str(id), SIGNAL_NONE));
        Ok(())
    }

    /// Asks session `id` to stop, or to cancel; signals for another id are
    /// ignored.
    pub fn signal(&mut self, id: &str, cancel: bool)
        ensures
            final(self)@ == signalled(old(self)@, id@, cancel),
    {
        match &mut self.session {
            Some((current, signal)) => {
                if eq_lit(&chars_of(current.as_str()), id) {
                    *signal = if cancel {
                        SIGNAL_CANCEL
                    } else {
                        SIGNAL_STOP
                    };
                }
            },
            None => {},
        }
    }

    /// The signal received by the running session, if any.
    pub fn received(&self) -> (r: Option<u8>)
        ensures
            r == match self@ {
                Some((_, s)) => Some(s),
                None => None,
            },
    {
        match &self.session {
            Some((_, s)) => Some(*s),
            None => None,
        }
    }

    /// The session ended; the slot is free again.
    pub fn finish(&mut self)
        ensures
            final(self)@ is None,
    {
        self.session = None;
    }
}

/// Practice keeps at most 15 seconds of 16 kHz mono PCM16.
pub const MAX_PRACTICE_BYTES: usize = 15 * 16000 * 2;
/// The shortest practice recording: 0.1 s.
pub const MIN_PRACTICE_BYTES: usize = 3200;

/// Whether a chunk still fits the practice recording.
pub fn practice_chunk_fits(buffered: usize, chunk: usize) -> (r: bool)
    ensures
        r == (buffered + chunk <= MAX_PRACTICE_BYTES),
{
    buffered <= MAX_PRACTICE_BYTES && chunk <= MAX_PRACTICE_BYTES - buffered
}

/// A recording shorter than the minimum is refused.
pub fn check_practice_audio(len: usize) -> (r: Result<(), String>)
    ensures
        len >= MIN_PRACTICE_BYTES ==> r is Ok,
        len < MIN_PRACTICE_BYTES ==> (r matches Err(m) && m@
            == "Record a short sentence before stopping"@),
{
    if len < MIN_PRACTICE_BYTES {
        return Err(String::from_str("Record a short sentence before stopping"));
    }
    Ok(())
}

/// What a practice run shows.
pub struct Preview {
    pub raw_text: String,
    pub polished_text: String,
    pub warning: Option<String>,
    pub processing_ms: u128,
}

/// A signal for another session never reaches the running one, and a
/// later signal for the running one replaces what it received.
pub proof fn lemma_stale_signal_is_ignored(
    current: Seq<char>,
    received: u8,
    stale: Seq<char>,
    cancel: bool,
    later: bool,
)
    requires
        current != stale,
    ensures
        signalled(Some((current, received)), stale, cancel) == Some((current, received)),
        signalled(signalled(Some((current, received)), stale, cancel), current, later) == Some(
            (current, if later {
                SIGNAL_CANCEL
            } else {
                SIGNAL_STOP
            }),
        ),
{
}

} // verus!
