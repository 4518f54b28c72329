//! Conservative output bounds for dictation, not a semantic answer
//! classifier: empty output, leaked reasoning markers and large expansion
//! are refused so that the original transcript is kept.
use vstd::prelude::*;
use crate::error::AppError;
use crate::request::{PolishRequest, VoiceIntentKind};
use crate::text::{chars_of, is_alphanumeric, occurs_at, trim, trim_chars, unicode_alphanumeric};

verus! {

/// The guard applies to plain dictation that is not being translated.
pub open spec fn guard_enabled(req: PolishRequest) -> bool {
    req.voice_intent.kind == VoiceIntentKind::DictateInsert && !req.translate_enabled
}

pub fn enabled(req: &PolishRequest) -> (r: bool)
    ensures
        r == guard_enabled(*req),
{
    req.voice_intent.kind == VoiceIntentKind::DictateInsert && !req.translate_enabled
}

/// Number of alphanumeric characters among the first `n` of `s`.
pub open spec fn alnum_count(s: Seq<char>, n: int) -> nat
    decreases n,
{
    if n <= 0 || n > s.len() {
        0
    } else {
        alnum_count(s, n - 1) + if unicode_alphanumeric(s[n - 1]) { 1nat } else { 0nat }
    }
}

pub open spec fn alnum(s: Seq<char>) -> nat {
    alnum_count(s, s.len() as int)
}

/// `pat` occurs somewhere in `s`.
pub open spec fn contains(s: Seq<char>, pat: Seq<char>) -> bool {
    exists|i: int| 0 <= i && i + pat.len() <= s.len() && #[trigger] s.subrange(i, i + pat.len()) == pat
}

/// How much the output may grow: twice the transcript, or the transcript
/// plus 120, whichever is more (counted in alphanumeric characters).
pub open spec fn expansion_limit(raw: Seq<char>) -> nat {
    if alnum(raw) * 2 >= alnum(raw) + 120 {
        alnum(raw) * 2
    } else {
        alnum(raw) + 120
    }
}

/// The output is refused when it is blank, carries a reasoning or channel
/// marker, or exceeds the expansion limit.
pub open spec fn rejected(raw: Seq<char>, output: Seq<char>) -> bool {
    ||| trim(output).len() == 0
    ||| contains(output, "<think>"@)
    ||| contains(output, "<|channel>"@)
    ||| alnum(output) > expansion_limit(raw)
}

pub open spec fn fidelity_message() -> Seq<char> {
    "Dictation output failed fidelity bounds; keep the original transcript"@
}

fn count_alnum(s: &[char]) -> (r: usize)
    ensures
        r == alnum(s@),
{
    let mut n: usize = 0;
    let mut i: usize = 0;
    while i < s.len()
        invariant
            i <= s@.len(),
            n == alnum_count(s@, i as int),
            n <= i,
        decreases s@.len() - i,
    {
        if is_alphanumeric(s[i]) {
            n = n + 1;
        }
        i = i + 1;
    }
    n
}

fn contains_lit(s: &[char], lit: &str) -> (r: bool)
    ensures
        r == contains(s@, lit@),
{
    let pat = chars_of(lit);
    if pat.len() == 0 {
        assert(s@.subrange(0int, 0int + pat@.len()) =~= pat@);
        return true;
    }
    let mut i: usize = 0;
    while i < s.len()
        invariant
            pat@ == lit@,
            pat@.len() > 0,
            i <= s@.len(),
            forall|k: int|
                0 <= k < i ==> !(k + pat@.len() <= s@.len() && #[trigger] s@.subrange(
                    k,
                    k + pat@.len(),
                ) == pat@),
        decreases s@.len() - i,
    {
        if occurs_at(s, i, &pat) {
            assert(s@.subrange(i as int, i + pat@.len()) == pat@);
            return true;
        }
        i = i + 1;
    }
    false
}

/// Keeps dictation output only when it stays within the fidelity bounds.
pub fn validate(raw: &str, output: &str) -> (r: Result<(), AppError>)
    ensures
        r is Ok <==> !rejected(raw@, output@),
        r matches Err(e) ==> e matches AppError::Output(m) && m@ == fidelity_message(),
{
    let out = chars_of(output);
    let raw_chars = chars_of(raw);
    let trimmed = trim_chars(&out);
    let n_out = count_alnum(&out);
    let n_raw = count_alnum(&raw_chars);
    let doubled: u128 = n_raw as u128 * 2;
    let padded: u128 = n_raw as u128 + 120;
    let limit = if doubled >= padded { doubled } else { padded };
    if trimmed.len() == 0 || contains_lit(&out, "<think>") || contains_lit(&out, "<|channel>")
        || n_out as u128 > limit {
        return Err(
            AppError::Output(
                String::from_str(
                    "Dictation output failed fidelity bounds; keep the original transcript",
                ),
            ),
        );
    }
    Ok(())
}


/// Output that carries a reasoning marker (`<think>`) or a channel marker
/// (`<|channel>`) anywhere is refused, whatever the transcript, and so is
/// output with nothing but white space.
pub proof fn lemma_markers_are_refused(raw: Seq<char>, output: Seq<char>, i: int)
    ensures
        (0 <= i && i + 10 <= output.len() && output.subrange(i, i + 10) == "<|channel>"@) ==> rejected(
            raw,
            output,
        ),
        (0 <= i && i + 7 <= output.len() && output.subrange(i, i + 7) == "<think>"@) ==> rejected(
            raw,
            output,
        ),
        trim(output).len() == 0 ==> rejected(raw, output),
{
    reveal_strlit("<|channel>");
    reveal_strlit("<think>");
    if 0 <= i && i + 10 <= output.len() && output.subrange(i, i + 10) == "<|channel>"@ {
        assert(output.subrange(i, i + "<|channel>"@.len()) == "<|channel>"@);
        assert(contains(output, "<|channel>"@));
    }
    if 0 <= i && i + 7 <= output.len() && output.subrange(i, i + 7) == "<think>"@ {
        assert(output.subrange(i, i + "<think>"@.len()) == "<think>"@);
        assert(contains(output, "<think>"@));
    }
}


/// Output that repeats a non-blank transcript without any marker is kept:
/// the guard never refuses the transcript itself.
pub proof fn lemma_transcript_itself_is_kept(raw: Seq<char>)
    requires
        trim(raw).len() > 0,
        !contains(raw, "<|channel>"@),
        !contains(raw, "<think>"@),
    ensures
        !rejected(raw, raw),
{
}

} // verus!
