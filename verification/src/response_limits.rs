//! Bound model responses and decode server-sent-event lines only after
//! complete UTF-8 lines have arrived.
use vstd::prelude::*;
use vstd::utf8::{decode_utf8, encode_utf8, valid_utf8};
use crate::error::AppError;
use crate::text::string_from_utf8;

verus! {

/// Largest model response accepted, in bytes.
pub const MAX_RESPONSE: usize = 8388608;

/// Largest single event line accepted, in bytes.
pub const MAX_LINE: usize = 1048576;

pub open spec fn oversized_message() -> Seq<char> {
    "Model response exceeded the supported size"@
}

pub open spec fn invalid_event_message() -> Seq<char> {
    "Invalid UTF-8 event"@
}

pub fn oversized() -> (r: AppError)
    ensures
        r matches AppError::Config(m) && m@ == oversized_message(),
{
    AppError::Config(String::from_str("Model response exceeded the supported size"))
}

fn invalid_event() -> (r: AppError)
    ensures
        r matches AppError::Config(m) && m@ == invalid_event_message(),
{
    AppError::Config(String::from_str("Invalid UTF-8 event"))
}

/// End (exclusive) of the part of `c` that starts at `pos`: just past the
/// first newline at or after `pos`, or the end of `c`.
pub open spec fn part_end(c: Seq<u8>, pos: int) -> int
    decreases c.len() - pos,
{
    if pos >= c.len() {
        c.len() as int
    } else if c[pos] == 10 {
        pos + 1
    } else {
        part_end(c, pos + 1)
    }
}

/// A part runs from `pos` through the first newline, or to the end of the chunk.
pub proof fn lemma_part_end(c: Seq<u8>, pos: int)
    requires
        0 <= pos < c.len(),
    ensures
        pos < part_end(c, pos) <= c.len(),
        c[part_end(c, pos) - 1] == 10 || part_end(c, pos) == c.len(),
        forall|i: int| pos <= i < part_end(c, pos) - 1 ==> c[i] != 10,
    decreases c.len() - pos,
{
    if c[pos] != 10 {
        if pos + 1 < c.len() {
            lemma_part_end(c, pos + 1);
        } else {
            assert(part_end(c, pos + 1) == c.len());
        }
    }
}

/// What splitting a chunk does: whether it succeeded, the completed lines
/// in order, and the bytes left pending.
pub struct Split {
    pub ok: bool,
    pub lines: Seq<Seq<char>>,
    pub pending: Seq<u8>,
}

/// Splits `c` from `pos` on, given the bytes `pending` from earlier chunks.
/// A part that would make the pending line longer than `MAX_LINE` fails
/// (keeping what was pending); a completed line that is not UTF-8 fails
/// with nothing pending.
pub open spec fn split_from(pending: Seq<u8>, c: Seq<u8>, pos: int) -> Split
    decreases c.len() - pos,
{
    if pos < 0 || pos >= c.len() {
        Split { ok: true, lines: seq![], pending }
    } else {
        let end = part_end(c, pos);
        proof {
            lemma_part_end(c, pos);
        }
        let part = c.subrange(pos, end);
        if part.len() > MAX_LINE - pending.len() {
            Split { ok: false, lines: seq![], pending }
        } else {
            let joined = pending + part;
            if c[end - 1] == 10 {
                if !valid_utf8(joined) {
                    Split { ok: false, lines: seq![], pending: seq![] }
                } else {
                    let rest = split_from(seq![], c, end);
                    Split {
                        ok: rest.ok,
                        lines: seq![decode_utf8(joined)] + rest.lines,
                        pending: rest.pending,
                    }
                }
            } else {
                split_from(joined, c, end)
            }
        }
    }
}

/// The UTF-8 bytes of `lines`, one after another.
pub open spec fn encoded(lines: Seq<Seq<char>>) -> Seq<u8>
    decreases lines.len(),
{
    if lines.len() == 0 {
        seq![]
    } else {
        encode_utf8(lines[0]) + encoded(lines.drop_first())
    }
}

/// Accumulates an event stream and hands out complete lines.
pub struct Lines {
    pending: Vec<u8>,
    total: usize,
}

impl View for Lines {
    /// The bytes of the unfinished line, and the byte count seen so far.
    type V = (Seq<u8>, nat);

    closed spec fn view(&self) -> (Seq<u8>, nat) {
        (self.pending@, self.total as nat)
    }
}

impl Lines {
    #[verifier::type_invariant]
    spec fn bounded(&self) -> bool {
        &&& self.pending@.len() <= MAX_LINE
        &&& self.total <= MAX_RESPONSE
    }

    /// A fresh splitter with nothing seen.
    pub fn new() -> (r: Self)
        ensures
            r@ == (Seq::<u8>::empty(), 0nat),
    {
        Lines { pending: Vec::new(), total: 0 }
    }

    /// Feeds one network chunk. A chunk that would take the response past
    /// `MAX_RESPONSE` is refused and changes nothing. Otherwise the count
    /// grows by the chunk's length and the chunk is split as `split_from`
    /// says: the completed lines come back, or the error that stopped it.
    pub fn push(&mut self, chunk: &[u8]) -> (r: Result<Vec<String>, AppError>)
        ensures
            old(self)@.1 + chunk@.len() > MAX_RESPONSE ==> {
                &&& r matches Err(AppError::Config(m)) && m@ == oversized_message()
                &&& final(self)@ == old(self)@
            },
            old(self)@.1 + chunk@.len() <= MAX_RESPONSE ==> {
                let s = split_from(old(self)@.0, chunk@, 0);
                &&& final(self)@.1 == old(self)@.1 + chunk@.len()
                &&& final(self)@.0 == s.pending
                &&& (r is Ok <==> s.ok)
                &&& (r matches Ok(lines) ==> lines@.len() == s.lines.len() && forall|i: int|
                    0 <= i < s.lines.len() ==> #[trigger] lines@[i]@ == s.lines[i])
                &&& (r matches Err(e) ==> e matches AppError::Config(m) && (m@
                    == oversized_message() || m@ == invalid_event_message()))
            },
    {
        proof {
            use_type_invariant(&*self);
        }
        if chunk.len() > MAX_RESPONSE - self.total {
            return Err(oversized());
        }
        self.total = self.total + chunk.len();
        let mut pending: Vec<u8> = Vec::new();
        std::mem::swap(&mut pending, &mut self.pending);
        let r = split_into_lines(&mut pending, chunk);
        std::mem::swap(&mut pending, &mut self.pending);
        r
    }
}

impl Default for Lines {
    fn default() -> (r: Self)
        ensures
            r@ == (Seq::<u8>::empty(), 0nat),
    {
        Lines::new()
    }
}

/// A whole response body read under the `MAX_RESPONSE` bound.
pub struct Body {
    bytes: Vec<u8>,
}

impl View for Body {
    type V = Seq<u8>;

    closed spec fn view(&self) -> Seq<u8> {
        self.bytes@
    }
}

impl Body {
    /// Starts reading a response whose declared length, if any, is
    /// `content_length`; a declared length above `MAX_RESPONSE` is refused.
    pub fn start(content_length: Option<u64>) -> (r: Result<Body, AppError>)
        ensures
            (content_length matches Some(n) && n > MAX_RESPONSE) ==> (r matches Err(
                AppError::Config(m),
            ) && m@ == oversized_message()),
            !(content_length matches Some(n) && n > MAX_RESPONSE) ==> (r matches Ok(b) && b@
                == Seq::<u8>::empty()),
    {
        match content_length {
            Some(n) => if n > MAX_RESPONSE as u64 {
                return Err(oversized());
            },
            None => {},
        }
        Ok(Body { bytes: Vec::new() })
    }

    /// Appends a chunk unless the body would exceed `MAX_RESPONSE`, in which
    /// case nothing changes and the limit error comes back.
    pub fn push(&mut self, chunk: &[u8]) -> (r: Result<(), AppError>)
        ensures
            old(self)@.len() + chunk@.len() > MAX_RESPONSE ==> (r matches Err(
                AppError::Config(m),
            ) && m@ == oversized_message() && final(self)@ == old(self)@),
            old(self)@.len() + chunk@.len() <= MAX_RESPONSE ==> (r is Ok && final(self)@ == old(
                self,
            )@ + chunk@),
    {
        if self.bytes.len() > MAX_RESPONSE || chunk.len() > MAX_RESPONSE - self.bytes.len() {
            return Err(oversized());
        }
        let ghost before = self.bytes@;
        let mut i: usize = 0;
        while i < chunk.len()
            invariant
                i <= chunk@.len(),
                self.bytes@ == before + chunk@.subrange(0, i as int),
            decreases chunk@.len() - i,
        {
            self.bytes.push(chunk[i]);
            i = i + 1;
            assert(self.bytes@ =~= before + chunk@.subrange(0, i as int));
        }
        assert(chunk@.subrange(0, chunk@.len() as int) =~= chunk@);
        Ok(())
    }

    /// The body as text: the decoded characters when it is UTF-8, otherwise
    /// the "not UTF-8" error.
    pub fn finish(self) -> (r: Result<String, AppError>)
        ensures
            valid_utf8(self@) ==> (r matches Ok(s) && s@ == decode_utf8(self@)),
            !valid_utf8(self@) ==> (r matches Err(AppError::Config(m)) && m@
                == "Model response is not UTF-8"@),
    {
        match string_from_utf8(self.bytes) {
            Some(s) => Ok(s),
            None => Err(AppError::Config(String::from_str("Model response is not UTF-8"))),
        }
    }
}

/// Splits `chunk` after the bytes in `pending`, leaving the unfinished line
/// in `pending`.
fn split_into_lines(pending: &mut Vec<u8>, chunk: &[u8]) -> (r: Result<Vec<String>, AppError>)
    requires
        old(pending)@.len() <= MAX_LINE,
    ensures
        final(pending)@.len() <= MAX_LINE,
        final(pending)@ == split_from(old(pending)@, chunk@, 0).pending,
        r is Ok <==> split_from(old(pending)@, chunk@, 0).ok,
        r matches Ok(lines) ==> lines@.len() == split_from(old(pending)@, chunk@, 0).lines.len(),
        r matches Ok(lines) ==> forall|i: int|
            0 <= i < lines@.len() ==> #[trigger] lines@[i]@ == split_from(
                old(pending)@,
                chunk@,
                0,
            ).lines[i],
        r matches Err(e) ==> e matches AppError::Config(m) && (m@ == oversized_message() || m@
            == invalid_event_message()),
{
        let ghost c = chunk@;
        let ghost start = old(pending)@;
        let mut lines: Vec<String> = Vec::new();
        let mut pos: usize = 0;
        while pos < chunk.len()
            invariant
                c == chunk@,
                start == old(pending)@,
                pos <= c.len(),
                pending@.len() <= MAX_LINE,
                ({
                    let whole = split_from(start, c, 0);
                    let rest = split_from(pending@, c, pos as int);
                    &&& whole.ok == rest.ok
                    &&& whole.pending == rest.pending
                    &&& whole.lines.len() == lines@.len() + rest.lines.len()
                    &&& forall|i: int|
                        0 <= i < lines@.len() ==> #[trigger] lines@[i]@ == whole.lines[i]
                    &&& forall|i: int|
                        0 <= i < rest.lines.len() ==> whole.lines[lines@.len() + i]
                            == #[trigger] rest.lines[i]
                }),
            decreases c.len() - pos,
        {
            proof {
                lemma_part_end(c, pos as int);
            }
            let mut end = pos;
            while end < chunk.len() && chunk[end] != 10
                invariant
                    c == chunk@,
                    pos <= end <= c.len(),
                    pos < c.len(),
                    part_end(c, pos as int) == part_end(c, end as int) || (end < c.len()
                        && c[end as int] == 10 && part_end(c, pos as int) == end + 1),
                    forall|i: int| pos <= i < end ==> c[i] != 10,
                decreases c.len() - end,
            {
                end = end + 1;
            }
            if end < chunk.len() {
                end = end + 1;
            }
            proof {
                if end < c.len() || (end == c.len() && c[end - 1] == 10) {
                }
            }
            assert(end == part_end(c, pos as int));
            let ghost pend = pending@;
            let ghost rest = split_from(pend, c, pos as int);
            assert(c.subrange(pos as int, end as int).len() == end - pos);
            if end - pos > MAX_LINE - pending.len() {
                assert(!rest.ok && rest.pending == pend);
                return Err(oversized());
            }
            let mut i = pos;
            while i < end
                invariant
                    c == chunk@,
                    pos <= i <= end <= c.len(),
                    pending@ == pend + c.subrange(pos as int, i as int),
                    pend.len() + (end - pos) <= MAX_LINE,
                decreases end - i,
            {
                pending.push(chunk[i]);
                i = i + 1;
                assert(pending@ =~= pend + c.subrange(pos as int, i as int));
            }
            let ghost joined = pend + c.subrange(pos as int, end as int);
            let ghost done = lines@;
            if chunk[end - 1] == 10 {
                let mut taken: Vec<u8> = Vec::new();
                std::mem::swap(&mut taken, pending);
                match string_from_utf8(taken) {
                    Some(line) => {
                        lines.push(line);
                        proof {
                            let rest2 = split_from(Seq::<u8>::empty(), c, end as int);
                            assert(pending@ =~= Seq::<u8>::empty());
                            assert(rest.ok == rest2.ok);
                            assert(rest.pending == rest2.pending);
                            assert(rest.lines =~= seq![vstd::utf8::decode_utf8(joined)]
                                + rest2.lines);
                            assert(lines@[done.len() as int]@ == rest.lines[0]);
                            assert forall|k: int| 0 <= k < rest2.lines.len() implies
                                rest.lines[1 + k] == #[trigger] rest2.lines[k] by {}
                        }
                    },
                    None => {
                        assert(pending@ =~= Seq::<u8>::empty());
                        assert(!rest.ok && rest.pending =~= Seq::<u8>::empty());
                        return Err(invalid_event());
                    },
                }
            }
            proof {
                if c[end - 1] != 10 {
                    assert(pending@ == joined);
                    assert(end == c.len());
                    assert(rest == split_from(joined, c, end as int));
                }
            }
            pos = end;
        }
        Ok(lines)
}

/// Nothing is lost or invented: when a split succeeds, the UTF-8 bytes of
/// the lines it completed, followed by what stays pending, are exactly the
/// bytes that were pending before followed by the rest of the chunk.
pub proof fn lemma_split_keeps_bytes(pending: Seq<u8>, c: Seq<u8>, pos: int)
    requires
        0 <= pos <= c.len(),
        split_from(pending, c, pos).ok,
    ensures
        encoded(split_from(pending, c, pos).lines) + split_from(pending, c, pos).pending
            == pending + c.subrange(pos, c.len() as int),
    decreases c.len() - pos,
{
    if pos < c.len() {
        lemma_part_end(c, pos);
        let end = part_end(c, pos);
        let part = c.subrange(pos, end);
        let joined = pending + part;
        if c[end - 1] == 10 {
            lemma_split_keeps_bytes(seq![], c, end);
            let rest = split_from(seq![], c, end);
            let s = split_from(pending, c, pos);
            vstd::utf8::decode_utf8_encode_utf8(joined);
            assert(s.lines.drop_first() =~= rest.lines);
            assert(encoded(s.lines) == encode_utf8(decode_utf8(joined)) + encoded(rest.lines));
            assert(seq![] + c.subrange(end, c.len() as int) =~= c.subrange(end, c.len() as int));
            assert(pending + c.subrange(pos, c.len() as int) =~= joined + c.subrange(
                end,
                c.len() as int,
            ));
            assert(encoded(s.lines) + s.pending =~= joined + (encoded(rest.lines)
                + rest.pending));
        } else {
            lemma_split_keeps_bytes(joined, c, end);
            assert(pending + c.subrange(pos, c.len() as int) =~= joined + c.subrange(
                end,
                c.len() as int,
            ));
        }
    } else {
        assert(encoded(seq![]) + pending =~= pending + c.subrange(pos, c.len() as int));
    }
}


/// The bytes of a complete event line: they end with the one newline they
/// hold.
pub open spec fn complete_line(b: Seq<u8>) -> bool {
    &&& b.len() > 0
    &&& b.last() == 10
    &&& forall|i: int| 0 <= i < b.len() - 1 ==> #[trigger] b[i] != 10
}

/// Bytes without a newline.
pub open spec fn no_newline(b: Seq<u8>) -> bool {
    forall|i: int| 0 <= i < b.len() ==> #[trigger] b[i] != 10
}

/// What a run of `push` calls does to a splitter with view `(pending,
/// total)`: each chunk is refused past `MAX_RESPONSE`, else split as
/// `split_from` says; the run stops at the first failure. `ok` is whether
/// every push succeeded; `lines` are all lines handed out, in order; the
/// last two fields are the splitter's view afterwards.
pub open spec fn pushes(pending: Seq<u8>, total: nat, chunks: Seq<Seq<u8>>) -> (bool, Seq<Seq<char>>, Seq<u8>, nat)
    decreases chunks.len(),
{
    if chunks.len() == 0 {
        (true, seq![], pending, total)
    } else if total + chunks[0].len() > MAX_RESPONSE {
        (false, seq![], pending, total)
    } else {
        let first = split_from(pending, chunks[0], 0);
        let t = total + chunks[0].len();
        if !first.ok {
            (false, first.lines, first.pending, t)
        } else {
            let rest = pushes(first.pending, t, chunks.drop_first());
            (rest.0, first.lines + rest.1, rest.2, rest.3)
        }
    }
}

proof fn lemma_encoded_concat(a: Seq<Seq<char>>, b: Seq<Seq<char>>)
    ensures
        encoded(a + b) == encoded(a) + encoded(b),
    decreases a.len(),
{
    if a.len() == 0 {
        assert(a + b =~= b);
        assert(encoded(a) + encoded(b) =~= encoded(b));
    } else {
        lemma_encoded_concat(a.drop_first(), b);
        assert((a + b).drop_first() =~= a.drop_first() + b);
        assert((a + b)[0] == a[0]);
        assert(encoded(a + b) =~= encoded(a) + encoded(b));
    }
}

proof fn lemma_split_shape(pending: Seq<u8>, c: Seq<u8>, pos: int)
    requires
        0 <= pos <= c.len(),
        no_newline(pending),
        pending.len() <= MAX_LINE,
        split_from(pending, c, pos).ok,
    ensures
        forall|i: int|
            0 <= i < split_from(pending, c, pos).lines.len() ==> complete_line(
                #[trigger] encode_utf8(split_from(pending, c, pos).lines[i]),
            ),
        no_newline(split_from(pending, c, pos).pending),
        split_from(pending, c, pos).pending.len() <= MAX_LINE,
    decreases c.len() - pos,
{
    if pos < c.len() {
        lemma_part_end(c, pos);
        let end = part_end(c, pos);
        let part = c.subrange(pos, end);
        let joined = pending + part;
        if c[end - 1] == 10 {
            lemma_split_shape(seq![], c, end);
            vstd::utf8::decode_utf8_encode_utf8(joined);
            let s = split_from(pending, c, pos);
            let rest = split_from(seq![], c, end);
            assert forall|i: int| 0 <= i < s.lines.len() implies complete_line(
                #[trigger] encode_utf8(s.lines[i]),
            ) by {
                if i == 0 {
                    assert(s.lines[0] == decode_utf8(joined));
                    assert forall|k: int| 0 <= k < joined.len() - 1 implies #[trigger] joined[k] != 10 by {
                        if k >= pending.len() {
                            assert(joined[k] == c[pos + k - pending.len()]);
                        }
                    }
                } else {
                    assert(s.lines[i] == rest.lines[i - 1]);
                }
            }
        } else {
            assert(end == c.len());
            assert forall|k: int| 0 <= k < joined.len() implies #[trigger] joined[k] != 10 by {
                if k >= pending.len() {
                    assert(joined[k] == c[pos + k - pending.len()]);
                }
            }
            lemma_split_shape(joined, c, end);
        }
    }
}

/// A run of pushes that all succeed hands out complete lines in order and
/// loses or invents nothing: the UTF-8 bytes of all the lines, followed by
/// the unfinished line, are exactly the bytes pushed; each line ends with
/// its one newline; the unfinished line holds no newline and stays within
/// `MAX_LINE`; and the bytes counted stay within `MAX_RESPONSE`.
pub proof fn lemma_pushes_keep_lines(pending: Seq<u8>, total: nat, chunks: Seq<Seq<u8>>)
    requires
        no_newline(pending),
        pending.len() <= MAX_LINE,
        total <= MAX_RESPONSE,
        pushes(pending, total, chunks).0,
    ensures
        ({
            let r = pushes(pending, total, chunks);
            &&& encoded(r.1) + r.2 == pending + chunks.flatten()
            &&& forall|i: int| 0 <= i < r.1.len() ==> complete_line(#[trigger] encode_utf8(r.1[i]))
            &&& no_newline(r.2)
            &&& r.2.len() <= MAX_LINE
            &&& r.3 == total + chunks.flatten().len()
            &&& r.3 <= MAX_RESPONSE
        }),
    decreases chunks.len(),
{
    if chunks.len() == 0 {
        assert(encoded(seq![]) + pending =~= pending + chunks.flatten());
    } else {
        let first = split_from(pending, chunks[0], 0);
        let t = total + chunks[0].len();
        lemma_split_keeps_bytes(pending, chunks[0], 0);
        lemma_split_shape(pending, chunks[0], 0);
        lemma_pushes_keep_lines(first.pending, t, chunks.drop_first());
        let rest = pushes(first.pending, t, chunks.drop_first());
        let r = pushes(pending, total, chunks);
        lemma_encoded_concat(first.lines, rest.1);
        assert(chunks[0].subrange(0, chunks[0].len() as int) =~= chunks[0]);
        assert(chunks.flatten() == chunks[0] + chunks.drop_first().flatten());
        let rf = chunks.drop_first().flatten();
        assert(encoded(first.lines) + first.pending == pending + chunks[0]);
        assert(encoded(rest.1) + rest.2 == first.pending + rf);
        assert(encoded(r.1) + r.2 =~= encoded(first.lines) + (encoded(rest.1) + rest.2));
        assert(encoded(first.lines) + (first.pending + rf) =~= (encoded(first.lines)
            + first.pending) + rf);
        assert((pending + chunks[0]) + rf =~= pending + chunks.flatten());
        assert forall|i: int| 0 <= i < r.1.len() implies complete_line(#[trigger] encode_utf8(r.1[i])) by {
            if i < first.lines.len() {
                assert(r.1[i] == first.lines[i]);
            } else {
                assert(r.1[i] == rest.1[i - first.lines.len()]);
            }
        }
    }
}

/// From a fresh splitter: the law above, starting with nothing pending and
/// nothing counted.
pub proof fn lemma_lines_from_start(chunks: Seq<Seq<u8>>)
    requires
        pushes(Seq::empty(), 0, chunks).0,
    ensures
        ({
            let r = pushes(Seq::empty(), 0, chunks);
            &&& encoded(r.1) + r.2 == chunks.flatten()
            &&& forall|i: int| 0 <= i < r.1.len() ==> complete_line(#[trigger] encode_utf8(r.1[i]))
            &&& no_newline(r.2)
            &&& r.2.len() <= MAX_LINE
            &&& chunks.flatten().len() <= MAX_RESPONSE
        }),
{
    lemma_pushes_keep_lines(Seq::empty(), 0, chunks);
    assert(Seq::<u8>::empty() + chunks.flatten() =~= chunks.flatten());
}

} // verus!
