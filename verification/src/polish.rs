//! The decisions of one polishing call to an OpenAI-compatible provider:
//! sampling, retries, error excerpts, and how a streamed answer is read,
//! guarded and handed out.
use crate::dictation_guard::{enabled, fidelity_message, guard_enabled, rejected, validate};
use crate::error::AppError;
use crate::request::{PolishRequest, VoiceIntentKind};
use crate::text::{chars_of, eq_lit, occurs_at, push_chars, string_of, trim, trim_chars, ws_start, lemma_ws_start, is_whitespace};
use vstd::prelude::*;

verus! {

/// ASCII letters folded to lower case; everything else unchanged.
pub open spec fn ascii_lower(c: char) -> char {
    if 'A' <= c <= 'Z' {
        ((c as u32) + 32) as char
    } else {
        c
    }
}

/// Equality up to ASCII case (what `str::eq_ignore_ascii_case` compares).
pub open spec fn eq_ascii_case(a: Seq<char>, b: Seq<char>) -> bool {
    a.len() == b.len() && forall|i: int| 0 <= i < a.len() ==> ascii_lower(#[trigger] a[i])
        == ascii_lower(b[i])
}

fn lower(c: char) -> (r: char)
    ensures
        r == ascii_lower(c),
{
    if 'A' <= c && c <= 'Z' {
        ((c as u8) + 32) as char
    } else {
        c
    }
}

pub fn eq_ignore_ascii_case(a: &[char], b: &[char]) -> (r: bool)
    ensures
        r == eq_ascii_case(a@, b@),
{
    if a.len() != b.len() {
        return false;
    }
    let mut i: usize = 0;
    while i < a.len()
        invariant
            a@.len() == b@.len(),
            i <= a@.len(),
            forall|k: int| 0 <= k < i ==> ascii_lower(#[trigger] a@[k]) == ascii_lower(b@[k]),
        decreases a@.len() - i,
    {
        if lower(a[i]) != lower(b[i]) {
            return false;
        }
        i = i + 1;
    }
    true
}

/// Whether an optional selection holds anything but whitespace.
pub open spec fn has_selection(selected: Option<String>) -> bool {
    selected matches Some(s) && trim(s@).len() > 0
}

pub fn has_selected_text(req: &PolishRequest) -> (r: bool)
    ensures
        r == has_selection(req.selected_text),
{
    match &req.selected_text {
        Some(s) => trim_chars(&chars_of(s.as_str())).len() != 0,
        None => false,
    }
}

/// Local structured dictation of supplied content is sampled
/// deterministically: an Ollama provider, the structured style, plain
/// dictation, no translation, no selection and no scene. Every other
/// request keeps the configured temperature.
pub open spec fn deterministic(provider: Seq<char>, req: PolishRequest) -> bool {
    &&& eq_ascii_case(trim(provider), "ollama"@)
    &&& req.polish_style@ == "structured"@
    &&& req.voice_intent.kind == VoiceIntentKind::DictateInsert
    &&& !req.translate_enabled
    &&& !has_selection(req.selected_text)
    &&& trim(req.mapped_scene_prompt@).len() == 0
    &&& trim(req.active_scene_prompt@).len() == 0
}

pub fn deterministic_sampling(provider: &str, req: &PolishRequest) -> (r: bool)
    ensures
        r == deterministic(provider@, *req),
{
    let p = trim_chars(&chars_of(provider));
    let ollama = chars_of("ollama");
    let style = chars_of(req.polish_style.as_str());
    eq_ignore_ascii_case(&p, &ollama) && eq_lit(&style, "structured") && req.voice_intent.kind
        == VoiceIntentKind::DictateInsert && !req.translate_enabled && !has_selected_text(req)
        && trim_chars(&chars_of(req.mapped_scene_prompt.as_str())).len() == 0 && trim_chars(
        &chars_of(req.active_scene_prompt.as_str()),
    ).len() == 0
}

/// GLM models answer only in their reasoning channel unless thinking is
/// switched on explicitly.
pub fn thinking_model(model: &str) -> (r: bool)
    ensures
        r == (model@.len() >= 4 && model@.take(4) == "glm-"@),
{
    let m = chars_of(model);
    let prefix = chars_of("glm-");
    proof {
        reveal_strlit("glm-");
    }
    let found = occurs_at(&m, 0, &prefix);
    proof {
        if m@.len() >= 4 {
            assert(m@.subrange(0, 4) =~= m@.take(4));
        }
    }
    found
}

/// The user message that carries a selection, fenced as data.
pub open spec fn selection_message(selected: Seq<char>) -> Seq<char> {
    "<selected_text>\n"@ + selected + "\n</selected_text>"@
}

pub fn selected_text_message(selected: &str) -> (r: String)
    ensures
        r@ == selection_message(selected@),
{
    let mut out = String::from_str("<selected_text>\n");
    let body = chars_of(selected);
    push_chars(&mut out, &body);
    let tail = chars_of("\n</selected_text>");
    push_chars(&mut out, &tail);
    out
}

/// How a request attempt ended.
pub enum SendResult {
    /// The provider answered with this HTTP status.
    Status(u16),
    /// The request timed out.
    Timeout,
    /// The connection could not be made.
    Connect,
    /// Any other transport failure.
    Failed,
}

/// What to do after an attempt.
#[derive(Clone, Copy, Debug, PartialEq, Eq, Structural)]
pub enum NextStep {
    /// Read this response.
    Use,
    /// Wait this long and try again.
    Retry(u64),
    /// Give up with this attempt's error.
    Fail,
}

/// Only the initial connection is retried: a server error, a timeout or a
/// failed connection gets two more attempts, one and then two seconds
/// later. A success is used; anything else fails at once.
pub open spec fn next_step(result: SendResult, attempt: u32) -> NextStep {
    let retry = if attempt == 0 {
        NextStep::Retry(1000)
    } else {
        NextStep::Retry(2000)
    };
    match result {
        SendResult::Status(s) => if 200 <= s < 300 {
            NextStep::Use
        } else if s >= 500 && attempt < 2 {
            retry
        } else {
            NextStep::Fail
        },
        SendResult::Timeout | SendResult::Connect => if attempt < 2 {
            retry
        } else {
            NextStep::Fail
        },
        SendResult::Failed => NextStep::Fail,
    }
}

pub fn after_attempt(result: &SendResult, attempt: u32) -> (r: NextStep)
    ensures
        r == next_step(*result, attempt),
{
    let delay: u64 = if attempt == 0 {
        1000
    } else {
        2000
    };
    match result {
        SendResult::Status(s) => {
            if 200 <= *s && *s < 300 {
                NextStep::Use
            } else if *s >= 500 && attempt < 2 {
                NextStep::Retry(delay)
            } else {
                NextStep::Fail
            }
        },
        SendResult::Timeout | SendResult::Connect => {
            if attempt < 2 {
                NextStep::Retry(delay)
            } else {
                NextStep::Fail
            }
        },
        SendResult::Failed => NextStep::Fail,
    }
}

/// Bytes of the UTF-8 encoding of one character.
pub open spec fn utf8_width(c: char) -> nat {
    if (c as u32) < 0x80 {
        1
    } else if (c as u32) < 0x800 {
        2
    } else if (c as u32) < 0x1_0000 {
        3
    } else {
        4
    }
}

/// Bytes of the UTF-8 encoding of `s`.
pub open spec fn utf8_len(s: Seq<char>) -> nat
    decreases s.len(),
{
    if s.len() == 0 {
        0
    } else {
        utf8_len(s.drop_last()) + utf8_width(s.last())
    }
}

/// The characters of an error body that begin within its first 200 bytes.
pub open spec fn excerpt_len(s: Seq<char>, n: int) -> int
    decreases s.len() - n,
{
    if n < 0 || n >= s.len() || utf8_len(s.take(n)) >= 200 {
        if n < 0 {
            0
        } else {
            n
        }
    } else {
        excerpt_len(s, n + 1)
    }
}

/// What is kept of an unsuccessful response body: every character that
/// starts within the first 200 bytes, so the cut never splits a character.
pub open spec fn error_excerpt_of(s: Seq<char>) -> Seq<char> {
    s.take(excerpt_len(s, 0))
}

fn width(c: char) -> (r: usize)
    ensures
        r == utf8_width(c),
{
    let u = c as u32;
    if u < 0x80 {
        1
    } else if u < 0x800 {
        2
    } else if u < 0x1_0000 {
        3
    } else {
        4
    }
}

pub fn error_excerpt(body: &str) -> (r: String)
    ensures
        r@ == error_excerpt_of(body@),
{
    let s = chars_of(body);
    let mut n: usize = 0;
    let mut bytes: usize = 0;
    while n < s.len() && bytes < 200
        invariant
            n <= s@.len(),
            bytes == utf8_len(s@.take(n as int)),
            bytes < 200 + 4,
            excerpt_len(s@, n as int) == excerpt_len(s@, 0),
        decreases s@.len() - n,
    {
        proof {
            assert(s@.take(n + 1).drop_last() =~= s@.take(n as int));
        }
        bytes = bytes + width(s[n]);
        n = n + 1;
    }
    let mut out: Vec<char> = Vec::new();
    let mut i: usize = 0;
    while i < n
        invariant
            n <= s@.len(),
            i <= n,
            out@ == s@.take(i as int),
        decreases n - i,
    {
        out.push(s[i]);
        i = i + 1;
        assert(out@ =~= s@.take(i as int));
    }
    string_of(&out)
}

/// The error for an unsuccessful status: the status and the excerpt of the body.
pub fn api_error(status: u16, body: &str) -> (r: AppError)
    ensures
        r matches AppError::Api { status: s, body: b } && s == status && b@ == error_excerpt_of(
            body@,
        ),
{
    AppError::Api { status, body: error_excerpt(body) }
}

/// What one line of a server-sent event stream means.
pub enum StreamLine {
    /// Not a data line.
    Skip,
    /// The end-of-stream marker.
    Done,
    /// A data payload, to be parsed as an event.
    Data(String),
}

/// A trimmed line that starts with `data:` carries the rest, without
/// leading whitespace; `[DONE]` ends the stream.
pub open spec fn line_meaning(line: Seq<char>) -> Option<Seq<char>> {
    let l = trim(line);
    if l.len() >= 5 && l.take(5) == "data:"@ {
        let rest = l.skip(5);
        Some(rest.skip(ws_start(rest, 0)))
    } else {
        None
    }
}

pub fn stream_line(line: &str) -> (r: StreamLine)
    ensures
        line_meaning(line@) is None ==> r is Skip,
        line_meaning(line@) matches Some(d) ==> if d == "[DONE]"@ {
            r is Done
        } else {
            r matches StreamLine::Data(x) && x@ == d
        },
{
    let l = trim_chars(&chars_of(line));
    let prefix = chars_of("data:");
    proof {
        reveal_strlit("data:");
    }
    if !occurs_at(&l, 0, &prefix) {
        proof {
            if l@.len() >= 5 {
                assert(l@.subrange(0, 5) =~= l@.take(5));
            }
        }
        return StreamLine::Skip;
    }
    assert(l@.subrange(0, 5) =~= l@.take(5));
    let ghost rest = l@.skip(5);
    let mut a: usize = 5;
    proof {
        lemma_ws_start(rest, 0);
    }
    while a < l.len() && is_whitespace(l[a])
        invariant
            5 <= a <= l@.len(),
            rest == l@.skip(5),
            ws_start(rest, a - 5) == ws_start(rest, 0),
        decreases l@.len() - a,
    {
        assert(rest[a - 5] == l@[a as int]);
        a = a + 1;
    }
    let mut data: Vec<char> = Vec::new();
    let mut i: usize = a;
    while i < l.len()
        invariant
            5 <= a <= i <= l@.len(),
            data@ == l@.subrange(a as int, i as int),
        decreases l@.len() - i,
    {
        data.push(l[i]);
        i = i + 1;
        assert(data@ =~= l@.subrange(a as int, i as int));
    }
    proof {
        assert(ws_start(rest, a - 5) == a - 5);
        assert(rest.skip(a - 5) =~= l@.subrange(a as int, l@.len() as int));
    }
    if eq_lit(&data, "[DONE]") {
        StreamLine::Done
    } else {
        StreamLine::Data(string_of(&data))
    }
}

/// What the collector does after one stream event.
pub enum EventStep {
    /// The provider reported an error: the request fails with it.
    Fail(AppError),
    /// Go on: `show` says whether to hand the event's text to the caller
    /// now, `stop` whether the stream has ended.
    Next { show: bool, stop: bool },
}

/// A streamed answer being collected. With the dictation guard on, no
/// chunk is shown before the whole answer has been validated.
pub struct PolishStream {
    full_text: String,
    guard: bool,
}

impl View for PolishStream {
    type V = (Seq<char>, bool);

    closed spec fn view(&self) -> (Seq<char>, bool) {
        (self.full_text@, self.guard)
    }
}

pub open spec fn no_final_text_message() -> Seq<char> {
    "LLM returned no final text"@
}

impl PolishStream {
    /// Starts collecting; `guard` is whether the dictation guard applies.
    pub fn new(guard: bool) -> (r: Self)
        ensures
            r@ == (Seq::<char>::empty(), guard),
    {
        PolishStream { full_text: String::new(), guard }
    }

    /// Starts collecting the answer to `req`, guarded as the request requires.
    pub fn for_request(req: &PolishRequest) -> (r: Self)
        ensures
            r@ == (Seq::<char>::empty(), guard_enabled(*req)),
    {
        PolishStream::new(enabled(req))
    }

    /// Adds a content chunk; the result says whether to show it now, which
    /// happens only when the guard is off and the chunk is not empty.
    pub fn accept(&mut self, content: &str) -> (show: bool)
        ensures
            final(self)@ == (old(self)@.0 + content@, old(self)@.1),
            show == (!old(self)@.1 && content@.len() > 0),
    {
        let c = chars_of(content);
        push_chars(&mut self.full_text, &c);
        !self.guard && c.len() > 0
    }

    /// Takes one parsed stream event: its error, its text and whether it
    /// ends the stream. An error fails the request and keeps nothing;
    /// otherwise the text is collected as `accept` does, and the stream
    /// stops after an event that ends it.
    pub fn event(&mut self, error: Option<String>, text: Option<&str>, done: bool) -> (r: EventStep)
        ensures
            error is Some ==> final(self)@ == old(self)@ && (r matches EventStep::Fail(
                AppError::Config(m),
            ) && m@ == error->Some_0@),
            error is None && text is None ==> final(self)@ == old(self)@ && r == (EventStep::Next {
                show: false,
                stop: done,
            }),
            error is None && text is Some ==> final(self)@ == (old(self)@.0 + text->Some_0@, old(
                self,
            )@.1) && r == (EventStep::Next {
                show: !old(self)@.1 && text->Some_0@.len() > 0,
                stop: done,
            }),
    {
        match error {
            Some(e) => EventStep::Fail(AppError::Config(e)),
            None => match text {
                Some(t) => {
                    let show = self.accept(t);
                    EventStep::Next { show, stop: done }
                },
                None => EventStep::Next { show: false, stop: done },
            },
        }
    }

    /// The whole answer. Reasoning alone is never a transcript: a blank
    /// answer fails; with the guard on, the answer must pass validation.
    pub fn finish(self, raw: &str) -> (r: Result<String, AppError>)
        ensures
            trim(self@.0).len() == 0 ==> (r matches Err(AppError::Output(m)) && m@
                == no_final_text_message()),
            trim(self@.0).len() > 0 && self@.1 && rejected(raw@, self@.0) ==> (r matches Err(
                AppError::Output(m),
            ) && m@ == fidelity_message()),
            trim(self@.0).len() > 0 && !(self@.1 && rejected(raw@, self@.0)) ==> (r matches Ok(
                s,
            ) && s@ == self@.0),
    {
        let text = chars_of(self.full_text.as_str());
        if trim_chars(&text).len() == 0 {
            return Err(AppError::Output(String::from_str("LLM returned no final text")));
        }
        if self.guard {
            match validate(raw, self.full_text.as_str()) {
                Ok(()) => {},
                Err(e) => {
                    return Err(e);
                },
            }
        }
        Ok(self.full_text)
    }
}

/// The answer of a non-streaming call: with the guard on it must pass
/// validation; an empty answer is otherwise returned as it is.
pub fn finish_completion(text: String, raw: &str, guard: bool) -> (r: Result<String, AppError>)
    ensures
        guard && rejected(raw@, text@) ==> (r matches Err(AppError::Output(m)) && m@
            == fidelity_message()),
        !(guard && rejected(raw@, text@)) ==> (r matches Ok(s) && s@ == text@),
{
    if guard {
        match validate(raw, text.as_str()) {
            Ok(()) => {},
            Err(e) => {
                return Err(e);
            },
        }
    }
    Ok(text)
}


/// A failed connection is retried like a timeout: one second after the
/// first attempt, two seconds after the second, and never after the third.
pub proof fn lemma_connect_retried_like_timeout(attempt: u32)
    ensures
        next_step(SendResult::Connect, attempt) == next_step(SendResult::Timeout, attempt),
        next_step(SendResult::Connect, attempt) == if attempt == 0 {
            NextStep::Retry(1000)
        } else if attempt == 1 {
            NextStep::Retry(2000)
        } else {
            NextStep::Fail
        },
{
}


/// A 2xx answer is used at once; a 5xx answer is retried on the first two
/// attempts, one and then two seconds later; any other status, any later
/// attempt and any other transport failure ends the request.
pub proof fn lemma_statuses(status: u16, attempt: u32)
    ensures
        200 <= status < 300 ==> next_step(SendResult::Status(status), attempt) == NextStep::Use,
        status >= 500 && attempt == 0 ==> next_step(SendResult::Status(status), attempt)
            == NextStep::Retry(1000),
        status >= 500 && attempt == 1 ==> next_step(SendResult::Status(status), attempt)
            == NextStep::Retry(2000),
        (status < 200 || 300 <= status < 500 || (status >= 500 && attempt >= 2)) ==> next_step(
            SendResult::Status(status),
            attempt,
        ) == NextStep::Fail,
        next_step(SendResult::Failed, attempt) == NextStep::Fail,
        attempt >= 2 ==> !(next_step(SendResult::Status(status), attempt) is Retry),
{
}

} // verus!
