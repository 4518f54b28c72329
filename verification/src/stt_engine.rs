//! Choosing the engine that runs a built-in model: the Apple-silicon MLX
//! worker or the CPU engine, and reading the platform facts the choice
//! depends on.
use crate::numeric::{parse_u32, parse_u64, parsed_below};
use crate::text::{chars_of, eq_lit, is_whitespace, lemma_ws_start, trim, trim_chars, unicode_whitespace, ws_start};
use crate::digest::{hex_lower, sha256, sha256_hex};
use vstd::prelude::*;

verus! {

/// The engine state shown in settings.
pub struct EngineStatus {
    pub preference: String,
    pub active: String,
    pub reason: Option<String>,
    pub resident: bool,
}

/// The largest reply frame read from the MLX worker.
pub const MAX_MLX_FRAME: u32 = 65536;

/// A reply frame longer than the limit is refused before it is read.
pub fn mlx_frame_len(size: u32) -> (r: Result<usize, String>)
    ensures
        size <= MAX_MLX_FRAME ==> r == Ok::<usize, String>(size as usize),
        size > MAX_MLX_FRAME ==> (r matches Err(m) && m@ == "MLX output exceeded limit"@),
{
    if size > MAX_MLX_FRAME {
        return Err(String::from_str("MLX output exceeded limit"));
    }
    Ok(size as usize)
}

/// Which engine transcribes a model.
pub enum MlxChoice {
    /// The CPU engine.
    Cpu,
    /// MLX was required but the platform cannot run it.
    Unavailable(String),
    /// Probe the GPU, then use MLX.
    Probe,
}

/// Only Qwen models use MLX, and never when CPU is preferred. Where the
/// platform cannot run MLX, an explicit MLX preference fails and the
/// automatic one falls back to CPU.
pub fn mlx_choice(engine: &str, preference: &str, platform_reason: Option<String>) -> (r:
    MlxChoice)
    ensures
        engine@ != "qwen"@ || preference@ == "cpu"@ ==> r is Cpu,
        engine@ == "qwen"@ && preference@ != "cpu"@ ==> match platform_reason {
            Some(reason) => if preference@ == "mlx"@ {
                r matches MlxChoice::Unavailable(m) && m@ == reason@
            } else {
                r is Cpu
            },
            None => r is Probe,
        },
{
    let e = chars_of(engine);
    let p = chars_of(preference);
    if !eq_lit(&e, "qwen") || eq_lit(&p, "cpu") {
        return MlxChoice::Cpu;
    }
    match platform_reason {
        Some(reason) => if eq_lit(&p, "mlx") {
            MlxChoice::Unavailable(reason)
        } else {
            MlxChoice::Cpu
        },
        None => MlxChoice::Probe,
    }
}

/// The engine label shown in settings: CPU unless a Qwen model is selected
/// and CPU is not preferred; "unavailable" when MLX cannot run and was
/// required or failed its probe; "mlx" after a successful probe;
/// "checking" before it.
pub open spec fn active_label(
    qwen_selected: bool,
    preference: Seq<char>,
    unsupported: bool,
    has_reason: bool,
    probe_ok: bool,
) -> Seq<char> {
    if !qwen_selected || preference == "cpu"@ {
        "cpu"@
    } else if has_reason {
        if preference == "mlx"@ || !unsupported {
            "unavailable"@
        } else {
            "cpu"@
        }
    } else if probe_ok {
        "mlx"@
    } else {
        "checking"@
    }
}

pub fn active_engine(
    qwen_selected: bool,
    preference: &str,
    unsupported: bool,
    has_reason: bool,
    probe_ok: bool,
) -> (r: String)
    ensures
        r@ == active_label(qwen_selected, preference@, unsupported, has_reason, probe_ok),
{
    let p = chars_of(preference);
    let label = if !qwen_selected || eq_lit(&p, "cpu") {
        "cpu"
    } else if has_reason {
        if eq_lit(&p, "mlx") || !unsupported {
            "unavailable"
        } else {
            "cpu"
        }
    } else if probe_ok {
        "mlx"
    } else {
        "checking"
    };
    String::from_str(label)
}

/// A cached worker is idle too long after this many milliseconds.
pub const WORKER_IDLE_MS: u64 = 115_000;

/// A cached worker is reused only for the same model, while it is alive
/// and has not idled past the limit.
pub fn worker_reusable(same_model: bool, idle_ms: u64, exited: bool) -> (r: bool)
    ensures
        r == (same_model && idle_ms <= WORKER_IDLE_MS && !exited),
{
    same_model && idle_ms <= WORKER_IDLE_MS && !exited
}

/// An idle worker is reaped once it reaches the limit or has exited.
pub fn worker_reaped(idle_ms: u64, exited: bool) -> (r: bool)
    ensures
        r == (idle_ms >= WORKER_IDLE_MS || exited),
{
    idle_ms >= WORKER_IDLE_MS || exited
}

/// `s` split at every `sep` (what `str::split` yields; never empty).
pub open spec fn split_on(s: Seq<char>, sep: char) -> Seq<Seq<char>>
    decreases s.len(),
{
    if s.len() == 0 {
        seq![Seq::<char>::empty()]
    } else {
        let p = split_on(s.drop_last(), sep);
        if s.last() == sep {
            p.push(Seq::<char>::empty())
        } else {
            p.update(p.len() - 1, p.last().push(s.last()))
        }
    }
}

/// Splitting always yields at least one piece.
pub proof fn lemma_split_nonempty(s: Seq<char>, sep: char)
    ensures
        split_on(s, sep).len() >= 1,
    decreases s.len(),
{
    if s.len() > 0 {
        lemma_split_nonempty(s.drop_last(), sep);
    }
}

/// The pieces of `s`, split at `sep`, collected by a left-to-right scan:
/// the finished pieces and the one being read.
fn split_chars(s: &[char], sep: char) -> (r: Vec<Vec<char>>)
    ensures
        r@.len() == split_on(s@, sep).len(),
        forall|i: int| 0 <= i < r@.len() ==> #[trigger] r@[i]@ == split_on(s@, sep)[i],
{
    let mut done: Vec<Vec<char>> = Vec::new();
    let mut cur: Vec<char> = Vec::new();
    let mut i: usize = 0;
    while i < s.len()
        invariant
            i <= s@.len(),
            done@.len() + 1 == split_on(s@.take(i as int), sep).len(),
            forall|k: int| 0 <= k < done@.len() ==> #[trigger] done@[k]@ == split_on(s@.take(i as int), sep)[k],
            cur@ == split_on(s@.take(i as int), sep).last(),
        decreases s@.len() - i,
    {
        proof {
            assert(s@.take(i + 1).drop_last() =~= s@.take(i as int));
            lemma_split_nonempty(s@.take(i as int), sep);
        }
        let c = s[i];
        if c == sep {
            let finished = cur;
            done.push(finished);
            cur = Vec::new();
            proof {
                assert(cur@ =~= Seq::<char>::empty());
            }
        } else {
            cur.push(c);
        }
        i = i + 1;
    }
    assert(s@.take(s@.len() as int) =~= s@);
    done.push(cur);
    proof {
        lemma_split_nonempty(s@, sep);
    }
    done
}

/// The first piece of `s` before any `sep`.
pub fn first_piece(s: &[char], sep: char) -> (r: Vec<char>)
    ensures
        r@ == split_on(s@, sep)[0],
{
    let pieces = split_chars(s, sep);
    proof {
        lemma_split_nonempty(s@, sep);
    }
    let mut out: Vec<char> = Vec::new();
    let first = &pieces[0];
    let mut i: usize = 0;
    while i < first.len()
        invariant
            i <= first@.len(),
            out@ == first@.take(i as int),
        decreases first@.len() - i,
    {
        out.push(first[i]);
        i = i + 1;
        assert(out@ =~= first@.take(i as int));
    }
    assert(first@.take(first@.len() as int) =~= first@);
    out
}

/// The pieces that read as unsigned 32-bit numbers, in order.
pub open spec fn numeric_pieces(ps: Seq<Seq<char>>) -> Seq<nat>
    decreases ps.len(),
{
    if ps.len() == 0 {
        Seq::empty()
    } else {
        match parsed_below(ps.last(), u32::MAX as nat + 1) {
            Some(v) => numeric_pieces(ps.drop_last()).push(v),
            None => numeric_pieces(ps.drop_last()),
        }
    }
}

/// Qwen's BLAS backend needs the macOS 13.3 ABI: the first two numeric
/// parts of the trimmed version (missing parts count as 0) must be at
/// least (13, 3).
pub open spec fn qwen_macos(version: Seq<char>) -> bool {
    let n = numeric_pieces(split_on(trim(version), '.'));
    let major = if n.len() > 0 {
        n[0]
    } else {
        0
    };
    let minor = if n.len() > 1 {
        n[1]
    } else {
        0
    };
    major > 13 || (major == 13 && minor >= 3)
}

pub fn qwen_supported_macos(version: &str) -> (r: bool)
    ensures
        r == qwen_macos(version@),
{
    let t = trim_chars(&chars_of(version));
    let pieces = split_chars(&t, '.');
    let ghost ps = split_on(t@, '.');
    let mut nums: Vec<u32> = Vec::new();
    let mut i: usize = 0;
    while i < pieces.len()
        invariant
            ps == split_on(t@, '.'),
            pieces@.len() == ps.len(),
            forall|k: int| 0 <= k < pieces@.len() ==> #[trigger] pieces@[k]@ == ps[k],
            i <= pieces@.len(),
            nums@.len() == numeric_pieces(ps.take(i as int)).len(),
            forall|k: int| 0 <= k < nums@.len() ==> #[trigger] nums@[k] as nat == numeric_pieces(ps.take(i as int))[k],
        decreases pieces@.len() - i,
    {
        proof {
            assert(ps.take(i + 1).drop_last() =~= ps.take(i as int));
            assert(ps.take(i + 1).last() == ps[i as int]);
        }
        match parse_u32(pieces[i].as_slice()) {
            Some(v) => {
                nums.push(v);
            },
            None => {},
        }
        i = i + 1;
    }
    assert(ps.take(ps.len() as int) =~= ps);
    let major: u32 = if nums.len() > 0 {
        nums[0]
    } else {
        0
    };
    let minor: u32 = if nums.len() > 1 {
        nums[1]
    } else {
        0
    };
    major > 13 || (major == 13 && minor >= 3)
}

/// The major version: the first '.'-separated part of `sw_vers` output, or
/// 0 when it does not read as a number.
pub open spec fn macos_major(version: Seq<char>) -> nat {
    match parsed_below(split_on(version, '.')[0], u32::MAX as nat + 1) {
        Some(v) => v,
        None => 0,
    }
}

/// Why MLX cannot run here, if it cannot: it needs a native Apple-silicon
/// build, the bundled runtime, and macOS 14 or later (`version` is what
/// `sw_vers -productVersion` printed, if it ran).
pub fn mlx_platform_reason(apple_silicon: bool, runtime_present: bool, version: Option<&str>) -> (r:
    Option<String>)
    ensures
        !apple_silicon ==> (r matches Some(m) && m@
            == "MLX Qwen requires a native Apple Silicon Mac build"@),
        apple_silicon && !runtime_present ==> (r matches Some(m) && m@
            == "This build does not include the MLX runtime"@),
        apple_silicon && runtime_present ==> ({
            let major = match version {
                Some(v) => macos_major(v@),
                None => 0,
            };
            &&& major < 14 ==> (r matches Some(m) && m@ == "MLX requires macOS 14 or later"@)
            &&& major >= 14 ==> r is None
        }),
{
    if !apple_silicon {
        return Some(String::from_str("MLX Qwen requires a native Apple Silicon Mac build"));
    }
    if !runtime_present {
        return Some(String::from_str("This build does not include the MLX runtime"));
    }
    let major: u32 = match version {
        Some(v) => {
            let first = first_piece(&chars_of(v), '.');
            match parse_u32(&first) {
                Some(m) => m,
                None => 0,
            }
        },
        None => 0,
    };
    if major < 14 {
        return Some(String::from_str("MLX requires macOS 14 or later"));
    }
    None
}

/// Where the first whitespace at or after `i` is, or the end.
pub open spec fn token_end(s: Seq<char>, i: int) -> int
    decreases s.len() - i,
{
    if i < 0 || i >= s.len() || unicode_whitespace(s[i]) {
        i
    } else {
        token_end(s, i + 1)
    }
}

/// The first whitespace-separated word of `s` (what
/// `split_whitespace().next()` gives).
pub open spec fn first_word(s: Seq<char>) -> Option<Seq<char>> {
    let a = ws_start(s, 0);
    if a >= s.len() {
        None
    } else {
        Some(s.subrange(a, token_end(s, a)))
    }
}

proof fn lemma_token_end(s: Seq<char>, i: int)
    requires
        0 <= i <= s.len(),
    ensures
        i <= token_end(s, i) <= s.len(),
    decreases s.len() - i,
{
    if i < s.len() && !unicode_whitespace(s[i]) {
        lemma_token_end(s, i + 1);
    }
}

fn first_word_exec(s: &[char]) -> (r: Option<Vec<char>>)
    ensures
        r matches Some(w) ==> first_word(s@) == Some(w@),
        r is None ==> first_word(s@) is None,
{
    proof {
        lemma_ws_start(s@, 0);
    }
    let mut a: usize = 0;
    while a < s.len() && is_whitespace(s[a])
        invariant
            a <= s@.len(),
            ws_start(s@, a as int) == ws_start(s@, 0),
        decreases s@.len() - a,
    {
        a = a + 1;
    }
    if a >= s.len() {
        return None;
    }
    proof {
        lemma_token_end(s@, a as int);
    }
    let mut b: usize = a;
    let mut w: Vec<char> = Vec::new();
    while b < s.len() && !is_whitespace(s[b])
        invariant
            a <= b <= s@.len(),
            token_end(s@, b as int) == token_end(s@, a as int),
            w@ == s@.subrange(a as int, b as int),
        decreases s@.len() - b,
    {
        w.push(s[b]);
        b = b + 1;
        assert(w@ =~= s@.subrange(a as int, b as int));
    }
    Some(w)
}

/// Total memory from Linux `/proc/meminfo`: the number after `MemTotal:`
/// on the first line that starts with it, in KiB.
pub open spec fn mem_total_kib(meminfo: Seq<char>) -> Option<nat> {
    let lines = split_on(meminfo, '\n');
    if exists|i: int| 0 <= i < lines.len() && is_mem_total(#[trigger] lines[i]) {
        let i = choose|i: int|
            0 <= i < lines.len() && is_mem_total(#[trigger] lines[i]) && forall|k: int|
                0 <= k < i ==> !is_mem_total(#[trigger] lines[k]);
        match first_word(lines[i].skip(9)) {
            Some(w) => parsed_below(w, u64::MAX as nat + 1),
            None => None,
        }
    } else {
        None
    }
}

pub open spec fn is_mem_total(line: Seq<char>) -> bool {
    line.len() >= 9 && line.take(9) == "MemTotal:"@
}

/// Whole GiB of physical memory from Linux `/proc/meminfo`, rounded up.
pub fn linux_memory_gb(meminfo: &str) -> (r: Option<u64>)
    ensures
        r matches Some(g) ==> mem_total_kib(meminfo@) matches Some(k) && g as nat == (k + 1048575)
            / 1048576,
        r is None ==> mem_total_kib(meminfo@) is None,
{
    let text = chars_of(meminfo);
    let lines = split_chars(&text, '\n');
    let ghost ls = split_on(text@, '\n');
    let prefix = chars_of("MemTotal:");
    proof {
        reveal_strlit("MemTotal:");
    }
    let mut i: usize = 0;
    while i < lines.len()
        invariant
            ls == split_on(text@, '\n'),
            text@ == meminfo@,
            prefix@ == "MemTotal:"@,
            prefix@.len() == 9,
            lines@.len() == ls.len(),
            forall|k: int| 0 <= k < lines@.len() ==> #[trigger] lines@[k]@ == ls[k],
            i <= lines@.len(),
            forall|k: int| 0 <= k < i ==> !is_mem_total(#[trigger] ls[k]),
        decreases lines@.len() - i,
    {
        let line = &lines[i];
        if occurs_at_start(line, &prefix) {
            proof {
                assert(line@.subrange(0, 9) =~= line@.take(9));
                assert(is_mem_total(ls[i as int]));
            }
            let mut rest: Vec<char> = Vec::new();
            let mut j: usize = 9;
            while j < line.len()
                invariant
                    9 <= j <= line@.len(),
                    rest@ == line@.subrange(9, j as int),
                decreases line@.len() - j,
            {
                rest.push(line[j]);
                j = j + 1;
                assert(rest@ =~= line@.subrange(9, j as int));
            }
            assert(rest@ =~= line@.skip(9));
            let ghost pick = choose|k: int|
                0 <= k < ls.len() && is_mem_total(#[trigger] ls[k]) && forall|m: int|
                    0 <= m < k ==> !is_mem_total(#[trigger] ls[m]);
            proof {
                assert(0 <= i < ls.len() && is_mem_total(ls[i as int]) && forall|m: int|
                    0 <= m < i ==> !is_mem_total(#[trigger] ls[m]));
                if pick < i {
                    assert(!is_mem_total(ls[pick]));
                }
                if pick > i {
                    assert(!is_mem_total(ls[i as int]));
                }
                assert(pick == i);
            }
            return match first_word_exec(&rest) {
                Some(w) => match parse_u64(&w) {
                    Some(k) => Some(k / 1048576 + if k % 1048576 == 0 {
                        0
                    } else {
                        1
                    }),
                    None => None,
                },
                None => None,
            };
        }
        proof {
            if line@.len() >= 9 && line@.take(9) == "MemTotal:"@ {
                assert(line@.subrange(0, 9) =~= line@.take(9));
            }
        }
        i = i + 1;
    }
    None
}

fn occurs_at_start(s: &Vec<char>, pat: &Vec<char>) -> (r: bool)
    ensures
        r == (pat@.len() <= s@.len() && s@.subrange(0, pat@.len() as int) == pat@),
{
    crate::text::occurs_at(s.as_slice(), 0, pat.as_slice())
}

/// Whole GiB of physical memory from macOS `sysctl -n hw.memsize` output
/// (bytes), rounded down.
pub fn macos_memory_gb(memsize: &str) -> (r: Option<u64>)
    ensures
        r matches Some(g) ==> parsed_below(trim(memsize@), u64::MAX as nat + 1) matches Some(b)
            && g as nat == b / 1073741824,
        r is None ==> parsed_below(trim(memsize@), u64::MAX as nat + 1) is None,
{
    let t = trim_chars(&chars_of(memsize));
    match parse_u64(&t) {
        Some(b) => Some(b / 1073741824),
        None => None,
    }
}

/// A failed GPU probe is reported with the way out.
pub fn probe_failure(error: &str) -> (r: String)
    ensures
        r@ == error@ + ". Retry or select CPU in built-in STT settings."@,
{
    let mut m = String::from_str(error);
    crate::text::push_chars(&mut m, &chars_of(". Retry or select CPU in built-in STT settings."));
    m
}

/// The worker's reply to a transcription request: it must answer this
/// request and succeed, and its text is trimmed.
pub fn mlx_reply(same_id: bool, ok: bool, text: Option<&str>) -> (r: Result<String, String>)
    ensures
        !(same_id && ok) ==> (r matches Err(m) && m@
            == "MLX transcription failed. Retry or select CPU in built-in STT settings."@),
        same_id && ok && text is None ==> (r matches Err(m) && m@ == "Invalid MLX text response"@),
        same_id && ok && text is Some ==> (r matches Ok(t) && t@ == trim(text->Some_0@)),
{
    if !(same_id && ok) {
        return Err(
            String::from_str("MLX transcription failed. Retry or select CPU in built-in STT settings."),
        );
    }
    match text {
        Some(t) => {
            let c = trim_chars(&chars_of(t));
            Ok(crate::text::string_of(&c))
        },
        None => Err(String::from_str("Invalid MLX text response")),
    }
}

/// Whether `name` ends with `.safetensors`.
pub open spec fn is_weights(name: Seq<char>) -> bool {
    name.len() >= 12 && name.skip(name.len() - 12) == ".safetensors"@
}

/// The model files the MLX worker loads: the `.safetensors` weights, in
/// catalog order.
pub fn weight_files(files: &Vec<crate::local_stt::ModelFile>) -> (r: Vec<String>)
    ensures
        r@.len() <= files@.len(),
        forall|i: int| 0 <= i < r@.len() ==> is_weights(#[trigger] r@[i]@),
        r@.map_values(|s: String| s@) == files@.map_values(|f: crate::local_stt::ModelFile| f.name@).filter(
            |n: Seq<char>| is_weights(n),
        ),
{
    let suffix = chars_of(".safetensors");
    proof {
        reveal_strlit(".safetensors");
    }
    let mut out: Vec<String> = Vec::new();
    let mut i: usize = 0;
    let ghost names = files@.map_values(|f: crate::local_stt::ModelFile| f.name@);
    while i < files.len()
        invariant
            suffix@ == ".safetensors"@,
            suffix@.len() == 12,
            names == files@.map_values(|f: crate::local_stt::ModelFile| f.name@),
            i <= files@.len(),
            out@.len() <= i,
            forall|k: int| 0 <= k < out@.len() ==> is_weights(#[trigger] out@[k]@),
            out@.map_values(|s: String| s@) == names.take(i as int).filter(|n: Seq<char>| is_weights(n)),
        decreases files@.len() - i,
    {
        let name = chars_of(files[i].name.as_str());
        let ok = name.len() >= 12 && crate::text::occurs_at(&name, name.len() - 12, &suffix);
        proof {
            assert(names.take(i + 1).drop_last() =~= names.take(i as int));
            assert(names.take(i + 1).last() == name@);
            if name@.len() >= 12 {
                assert(name@.subrange(name@.len() - 12, name@.len() as int) =~= name@.skip(
                    name@.len() - 12,
                ));
            }
            assert(ok == is_weights(name@));
            reveal(Seq::filter);
        }
        let ghost before = out@;
        if ok {
            out.push(files[i].name.clone());
            proof {
                assert(out@.map_values(|s: String| s@) =~= before.map_values(|s: String| s@).push(
                    name@,
                ));
            }
        }
        i = i + 1;
    }
    assert(names.take(files@.len() as int) =~= names);
    out
}

/// The command-line flags of the CPU engine after its model argument:
/// whisper-cli reads WAV from stdin with four threads and an explicit or
/// automatic language; the Qwen engine reads stdin silently and takes a
/// Qwen language name when one is given.
pub open spec fn engine_flags_spec(engine: Seq<char>, language: Option<Seq<char>>) -> Option<
    Seq<Seq<char>>,
> {
    let lang = crate::local_stt::explicit_language(language);
    if engine == "whisper"@ {
        Some(
            seq![
                "-f"@,
                "-"@,
                "-of"@,
                "transcript"@,
                "-nt"@,
                "-np"@,
                "-t"@,
                "4"@,
                "-l"@,
                match lang {
                    Some(l) => l,
                    None => "auto"@,
                },
            ],
        )
    } else {
        let base = seq!["--stdin"@, "--silent"@, "-t"@, "4"@, "-S"@, "20"@];
        match lang {
            None => Some(base),
            Some(l) => match crate::local_stt::qwen_name(l) {
                Some(n) => Some(base + seq!["--language"@, n]),
                None => None,
            },
        }
    }
}

fn push_flag(v: &mut Vec<String>, flag: &str)
    ensures
        final(v)@.map_values(|s: String| s@) == old(v)@.map_values(|s: String| s@).push(flag@),
{
    let ghost before = v@;
    v.push(String::from_str(flag));
    assert(v@.map_values(|s: String| s@) =~= before.map_values(|s: String| s@).push(flag@));
}

pub fn engine_flags(engine: &str, language: Option<&str>) -> (r: Result<Vec<String>, String>)
    ensures
        match engine_flags_spec(
            engine@,
            match language {
                Some(l) => Some(l@),
                None => None,
            },
        ) {
            Some(f) => r matches Ok(v) && v@.map_values(|s: String| s@) == f,
            None => r matches Err(m) && m@ == crate::local_stt::unsupported_language_message(),
        },
{
    let language = crate::local_stt::requested_language(language);
    let mut v: Vec<String> = Vec::new();
    if eq_lit(&chars_of(engine), "whisper") {
        push_flag(&mut v, "-f");
        push_flag(&mut v, "-");
        push_flag(&mut v, "-of");
        push_flag(&mut v, "transcript");
        push_flag(&mut v, "-nt");
        push_flag(&mut v, "-np");
        push_flag(&mut v, "-t");
        push_flag(&mut v, "4");
        push_flag(&mut v, "-l");
        match language {
            Some(l) => push_flag(&mut v, l.as_str()),
            None => push_flag(&mut v, "auto"),
        }
        assert(v@.map_values(|s: String| s@) =~= engine_flags_spec(
            engine@,
            match language {
                Some(l) => Some(l@),
                None => None,
            },
        )->Some_0);
        Ok(v)
    } else {
        push_flag(&mut v, "--stdin");
        push_flag(&mut v, "--silent");
        push_flag(&mut v, "-t");
        push_flag(&mut v, "4");
        push_flag(&mut v, "-S");
        push_flag(&mut v, "20");
        match language {
            Some(l) => {
                let name = match crate::local_stt::qwen_language(l.as_str()) {
                    Ok(n) => n,
                    Err(e) => {
                        return Err(e);
                    },
                };
                push_flag(&mut v, "--language");
                push_flag(&mut v, name.as_str());
                Ok(v)
            },
            None => Ok(v),
        }
    }
}


/// The bundled tokenizer of a model is copied into place only when the
/// tokenizer manifest lists the model (`expected` is its recorded SHA-256,
/// empty where the entry has none) and the file's digest matches it.
pub fn check_tokenizer(expected: Option<&str>, bytes: &[u8]) -> (r: Result<(), String>)
    ensures
        expected is None ==> (r matches Err(m) && m@ == "Missing tokenizer manifest"@),
        expected matches Some(e) ==> if hex_lower(sha256(bytes@)) == e@ {
            r is Ok
        } else {
            r matches Err(m) && m@ == "Tokenizer checksum mismatch"@
        },
{
    match expected {
        None => Err(String::from_str("Missing tokenizer manifest")),
        Some(e) => {
            let digest = sha256_hex(bytes);
            if eq_lit(&chars_of(digest.as_str()), e) {
                Ok(())
            } else {
                Err(String::from_str("Tokenizer checksum mismatch"))
            }
        },
    }
}


/// How the CPU engine is told where the model is: whisper-cli takes `-m`
/// and the model's first file, the Qwen engine takes `-d` and the model's
/// directory (no file name).
pub fn model_argument(model: &crate::local_stt::Model) -> (r: (&'static str, Option<String>))
    ensures
        model.engine@ == "whisper"@ ==> r.0@ == "-m"@ && if model.files@.len() > 0 {
            r.1 matches Some(n) && n@ == model.files@[0].name@
        } else {
            r.1 is None
        },
        model.engine@ != "whisper"@ ==> r.0@ == "-d"@ && r.1 is None,
{
    proof {
        reveal_strlit("-m");
        reveal_strlit("-d");
    }
    if eq_lit(&chars_of(model.engine.as_str()), "whisper") {
        if model.files.len() > 0 {
            ("-m", Some(model.files[0].name.clone()))
        } else {
            ("-m", None)
        }
    } else {
        ("-d", None)
    }
}

} // verus!
