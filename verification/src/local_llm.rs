//! The bundled Ollama runtime's pinned catalog: which blobs make a model,
//! how they are fetched, verified and shared, and how the runtime is
//! addressed.
use crate::digest::{hex_lower, sha256, StreamDigest};
use crate::local_stt::{expected_content_range, expected_range};
use crate::numeric::decimal;
use crate::text::{chars_of, eq_lit, push_chars, replace_all, replace_chars, string_of};
use vstd::prelude::*;

verus! {

/// The provider id of the bundled runtime.
pub const ID: &'static str = "builtin-llm";
/// The Ollama release the bundled runtime must report.
pub const RUNTIME_VERSION: &'static str = "0.34.0";

/// One content-addressed file of a model.
pub struct Blob {
    pub digest: String,
    pub size: u64,
}

/// A pinned model: its manifest, the manifest's digest, and its blobs.
pub struct Model {
    pub id: String,
    pub name: String,
    pub tag: String,
    pub manifest: String,
    pub sha256: String,
    pub files: Vec<Blob>,
}

/// Download progress.
pub struct Progress {
    pub model: String,
    pub downloaded: u64,
    pub total: u64,
    pub phase: String,
    pub error: Option<String>,
}

/// A catalog entry as shown in settings.
pub struct ModelStatus {
    pub id: String,
    pub name: String,
    pub size: u64,
    pub installed: bool,
}

/// The bundled runtime's state as shown in settings.
pub struct Status {
    pub models: Vec<ModelStatus>,
    pub selected: Option<String>,
    pub progress: Progress,
    pub busy: bool,
    pub available: bool,
    pub running: bool,
}

/// The index of the catalog model with `id`, the first if several.
pub fn model_index(catalog: &Vec<Model>, id: &str) -> (r: Result<usize, String>)
    ensures
        r matches Ok(i) ==> i < catalog@.len() && catalog@[i as int].id@ == id@ && forall|k: int|
            0 <= k < i ==> #[trigger] catalog@[k].id@ != id@,
        r matches Err(m) ==> m@ == "Unknown built-in LLM model"@ && forall|k: int|
            0 <= k < catalog@.len() ==> #[trigger] catalog@[k].id@ != id@,
{
    let mut i: usize = 0;
    while i < catalog.len()
        invariant
            i <= catalog@.len(),
            forall|k: int| 0 <= k < i ==> #[trigger] catalog@[k].id@ != id@,
        decreases catalog@.len() - i,
    {
        if eq_lit(&chars_of(catalog[i].id.as_str()), id) {
            return Ok(i);
        }
        i = i + 1;
    }
    Err(String::from_str("Unknown built-in LLM model"))
}

/// The file name of a blob: its digest with ':' written as '-'.
pub fn blob_file_name(digest: &str) -> (r: String)
    ensures
        r@ == replace_all(digest@, seq![':'], seq!['-']),
{
    let d = chars_of(digest);
    let pat: Vec<char> = vec![':'];
    let rep: Vec<char> = vec!['-'];
    assert(pat@ =~= seq![':']);
    assert(rep@ =~= seq!['-']);
    let out = replace_chars(&d, &pat, &rep);
    string_of(&out)
}

/// Where a blob is fetched from.
pub fn blob_url(digest: &str) -> (r: String)
    ensures
        r@ == "https://registry.ollama.ai/v2/library/gemma4/blobs/"@ + digest@,
{
    let mut u = String::from_str("https://registry.ollama.ai/v2/library/gemma4/blobs/");
    push_chars(&mut u, &chars_of(digest));
    u
}

pub open spec fn blob_sizes(files: Seq<Blob>) -> nat
    decreases files.len(),
{
    if files.len() == 0 {
        0
    } else {
        blob_sizes(files.drop_last()) + files.last().size as nat
    }
}

proof fn lemma_blob_sizes_prefix(files: Seq<Blob>, k: int)
    requires
        0 <= k <= files.len(),
    ensures
        blob_sizes(files.take(k)) <= blob_sizes(files),
    decreases files.len(),
{
    if k < files.len() {
        assert(files.drop_last().take(k) =~= files.take(k));
        lemma_blob_sizes_prefix(files.drop_last(), k);
    } else {
        assert(files.take(k) =~= files);
    }
}

/// The bytes a model occupies.
pub fn model_size(files: &Vec<Blob>) -> (r: u64)
    requires
        blob_sizes(files@) <= u64::MAX,
    ensures
        r == blob_sizes(files@),
{
    let mut total: u64 = 0;
    let mut i: usize = 0;
    while i < files.len()
        invariant
            i <= files@.len(),
            blob_sizes(files@) <= u64::MAX,
            total == blob_sizes(files@.take(i as int)),
        decreases files@.len() - i,
    {
        proof {
            assert(files@.take(i + 1).drop_last() =~= files@.take(i as int));
            lemma_blob_sizes_prefix(files@, i + 1);
        }
        total = total + files[i].size;
        i = i + 1;
    }
    assert(files@.take(files@.len() as int) =~= files@);
    total
}

/// A model is installed when its manifest on disk is byte for byte the
/// pinned one and every blob has its pinned size.
pub fn is_installed(model: &Model, manifest: Option<&[u8]>, sizes: &Vec<Option<u64>>) -> (r: bool)
    requires
        sizes@.len() == model.files@.len(),
    ensures
        r == ((manifest matches Some(m) && m@ == vstd::utf8::encode_utf8(model.manifest@))
            && forall|i: int| 0 <= i < sizes@.len() ==> #[trigger] sizes@[i] == Some(
            model.files@[i].size,
        )),
{
    broadcast use vstd::string::group_string_axioms;

    let pinned = model.manifest.as_str().as_bytes();
    let same = match manifest {
        Some(m) => bytes_equal(m, pinned),
        None => false,
    };
    if !same {
        return false;
    }
    let mut i: usize = 0;
    while i < sizes.len()
        invariant
            sizes@.len() == model.files@.len(),
            i <= sizes@.len(),
            forall|k: int| 0 <= k < i ==> #[trigger] sizes@[k] == Some(model.files@[k].size),
        decreases sizes@.len() - i,
    {
        match sizes[i] {
            Some(n) => {
                if n != model.files[i].size {
                    return false;
                }
            },
            None => {
                return false;
            },
        }
        i = i + 1;
    }
    true
}

fn bytes_equal(a: &[u8], b: &[u8]) -> (r: bool)
    ensures
        r == (a@ == b@),
{
    if a.len() != b.len() {
        return false;
    }
    let mut i: usize = 0;
    while i < a.len()
        invariant
            a@.len() == b@.len(),
            i <= a@.len(),
            forall|k: int| 0 <= k < i ==> a@[k] == b@[k],
        decreases a@.len() - i,
    {
        if a[i] != b[i] {
            return false;
        }
        i = i + 1;
    }
    assert(a@ =~= b@);
    true
}

/// A blob's recorded identity on disk: its length and modification time.
pub type Stamp = (u64, u128);

/// What verifying a blob on disk starts with.
#[derive(Clone, Copy, Debug, PartialEq, Eq, Structural)]
pub enum BlobCheck {
    /// The size is wrong; it is refused.
    SizeMismatch,
    /// This exact file was verified before in this session.
    Cached,
    /// The contents must be hashed.
    Hash,
}

/// A file of the wrong size is refused; one whose stamp was verified
/// earlier in the session is accepted; any other is hashed.
pub fn blob_check(stamp: Stamp, blob: &Blob, verified: Option<Stamp>) -> (r: BlobCheck)
    ensures
        stamp.0 != blob.size ==> r == BlobCheck::SizeMismatch,
        stamp.0 == blob.size && verified == Some(stamp) ==> r == BlobCheck::Cached,
        stamp.0 == blob.size && verified != Some(stamp) ==> r == BlobCheck::Hash,
{
    if stamp.0 != blob.size {
        return BlobCheck::SizeMismatch;
    }
    match verified {
        Some(v) => if v.0 == stamp.0 && v.1 == stamp.1 {
            BlobCheck::Cached
        } else {
            BlobCheck::Hash
        },
        None => BlobCheck::Hash,
    }
}

pub fn size_mismatch() -> (r: String)
    ensures
        r@ == "Model file size mismatch"@,
{
    String::from_str("Model file size mismatch")
}

/// The hashed contents (every byte fed to `digest`) must carry the pinned
/// digest (`sha256:` and the lowercase hexadecimal digest), and the file
/// must not have changed while it was read.
pub fn hashed_blob(digest: StreamDigest, blob: &Blob, before: Stamp, after: Stamp) -> (r: Result<
    (),
    String,
>)
    ensures
        "sha256:"@ + hex_lower(sha256(digest@)) != blob.digest@ ==> (r matches Err(m) && m@
            == "Model checksum mismatch; delete and download again"@),
        "sha256:"@ + hex_lower(sha256(digest@)) == blob.digest@ && after != before ==> (r matches Err(m)
            && m@ == "Model changed during verification"@),
        "sha256:"@ + hex_lower(sha256(digest@)) == blob.digest@ && after == before ==> r is Ok,
{
    let mut d = String::from_str("sha256:");
    let hex = digest.finish_hex();
    push_chars(&mut d, &chars_of(hex.as_str()));
    if !eq_lit(&chars_of(d.as_str()), blob.digest.as_str()) {
        return Err(String::from_str("Model checksum mismatch; delete and download again"));
    }
    if after.0 != before.0 || after.1 != before.1 {
        return Err(String::from_str("Model changed during verification"));
    }
    Ok(())
}

/// How a blob download begins, given the partial file's length.
pub enum BlobStart {
    /// The partial file is longer than the blob; it is removed and the
    /// download fails.
    Discard,
    /// Request the rest from `offset` with this Range header.
    Fetch(u64, String),
    /// The partial file is complete; verify it.
    Complete,
}

pub fn blob_start(part_len: Option<u64>, size: u64) -> (r: BlobStart)
    ensures
        ({
            let offset = match part_len {
                Some(n) => n,
                None => 0,
            };
            &&& offset > size ==> r is Discard
            &&& offset < size ==> (r matches BlobStart::Fetch(o, h) && o == offset && h@ == "bytes="@
                + decimal(offset as nat) + "-"@)
            &&& offset == size ==> r is Complete
        }),
{
    let offset = match part_len {
        Some(n) => n,
        None => 0,
    };
    if offset > size {
        BlobStart::Discard
    } else if offset < size {
        let mut h = String::from_str("bytes=");
        crate::numeric::push_decimal(&mut h, offset);
        push_chars(&mut h, &chars_of("-"));
        BlobStart::Fetch(offset, h)
    } else {
        BlobStart::Complete
    }
}

pub fn invalid_partial() -> (r: String)
    ensures
        r@ == "Invalid partial model; retry download"@,
{
    String::from_str("Invalid partial model; retry download")
}

/// Where writing starts: a partial answer must cover exactly the rest of
/// the blob and resumes at `offset`; any other successful answer restarts.
pub fn blob_response(partial: bool, content_range: Option<&str>, offset: u64, size: u64) -> (r:
    Result<u64, String>)
    requires
        offset < size,
    ensures
        partial ==> match content_range {
            Some(c) if c@ == expected_range(offset, size) => r == Ok::<u64, String>(offset),
            _ => r matches Err(m) && m@ == "Invalid download range"@,
        },
        !partial ==> r == Ok::<u64, String>(0),
{
    if !partial {
        return Ok(0);
    }
    let expected = expected_content_range(offset, size);
    let ok = match content_range {
        Some(c) => eq_lit(&chars_of(expected.as_str()), c),
        None => false,
    };
    if ok {
        Ok(offset)
    } else {
        Err(String::from_str("Invalid download range"))
    }
}

/// A chunk that would grow the blob past its pinned size is refused.
pub fn blob_chunk(written: u64, len: usize, size: u64) -> (r: Result<u64, String>)
    requires
        written <= size,
    ensures
        written + len > size ==> (r matches Err(m) && m@ == "Download exceeds catalog size"@),
        written + len <= size ==> r == Ok::<u64, String>((written + len) as u64),
{
    if len as u128 > (size - written) as u128 {
        return Err(String::from_str("Download exceeds catalog size"));
    }
    Ok(written + len as u64)
}

/// Whether another model than `id` uses a blob with this digest.
pub open spec fn shared(catalog: Seq<Model>, id: Seq<char>, digest: Seq<char>) -> bool {
    exists|k: int, j: int|
        0 <= k < catalog.len() && catalog[k].id@ != id && 0 <= j < catalog[k].files@.len()
            && #[trigger] catalog[k].files@[j].digest@ == digest
}

fn used_elsewhere(catalog: &Vec<Model>, id: &str, digest: &str) -> (r: bool)
    ensures
        r == shared(catalog@, id@, digest@),
{
    let mut k: usize = 0;
    while k < catalog.len()
        invariant
            k <= catalog@.len(),
            forall|a: int, j: int|
                0 <= a < k && catalog@[a].id@ != id@ && 0 <= j < catalog@[a].files@.len()
                    ==> #[trigger] catalog@[a].files@[j].digest@ != digest@,
        decreases catalog@.len() - k,
    {
        let other = !eq_lit(&chars_of(catalog[k].id.as_str()), id);
        if other {
            let files = &catalog[k].files;
            let mut j: usize = 0;
            while j < files.len()
                invariant
                    k < catalog@.len(),
                    files@ == catalog@[k as int].files@,
                    catalog@[k as int].id@ != id@,
                    j <= files@.len(),
                    forall|b: int| 0 <= b < j ==> #[trigger] files@[b].digest@ != digest@,
                decreases files@.len() - j,
            {
                if eq_lit(&chars_of(files[j].digest.as_str()), digest) {
                    assert(catalog@[k as int].files@[j as int].digest@ == digest@);
                    return true;
                }
                j = j + 1;
            }
        }
        k = k + 1;
    }
    false
}

/// The blobs of `model` that deleting it removes: those no other catalog
/// model uses (shared license and configuration blobs stay).
pub fn blobs_to_delete(catalog: &Vec<Model>, model: &Model) -> (r: Vec<usize>)
    ensures
        forall|i: int| 0 <= i < r@.len() ==> #[trigger] r@[i] < model.files@.len(),
        forall|i: int, j: int| 0 <= i < j < r@.len() ==> r@[i] < r@[j],
        forall|b: int|
            0 <= b < model.files@.len() ==> (r@.contains(b as usize) <==> !shared(
                catalog@,
                model.id@,
                #[trigger] model.files@[b].digest@,
            )),
{
    let mut out: Vec<usize> = Vec::new();
    let mut b: usize = 0;
    while b < model.files.len()
        invariant
            b <= model.files@.len(),
            forall|i: int| 0 <= i < out@.len() ==> #[trigger] out@[i] < b,
            forall|i: int, j: int| 0 <= i < j < out@.len() ==> out@[i] < out@[j],
            forall|c: int|
                0 <= c < b ==> (out@.contains(c as usize) <==> !shared(
                    catalog@,
                    model.id@,
                    #[trigger] model.files@[c].digest@,
                )),
        decreases model.files@.len() - b,
    {
        let keep = used_elsewhere(catalog, model.id.as_str(), model.files[b].digest.as_str());
        let ghost before = out@;
        if !keep {
            out.push(b);
        }
        proof {
            assert forall|c: int| 0 <= c < b + 1 implies (out@.contains(c as usize) <==> !shared(
                catalog@,
                model.id@,
                #[trigger] model.files@[c].digest@,
            )) by {
                if c < b {
                    if out@.contains(c as usize) {
                        let i = choose|i: int| 0 <= i < out@.len() && out@[i] == c as usize;
                        if i < before.len() {
                            assert(before[i] == out@[i]);
                        }
                    }
                    if before.contains(c as usize) {
                        let i = choose|i: int| 0 <= i < before.len() && before[i] == c as usize;
                        assert(out@[i] == before[i]);
                    }
                } else {
                    if !keep {
                        assert(out@[before.len() as int] == b);
                    } else {
                        if out@.contains(c as usize) {
                            let i = choose|i: int| 0 <= i < out@.len() && out@[i] == c as usize;
                            assert(out@[i] < b);
                        }
                    }
                }
            }
        }
        b = b + 1;
    }
    out
}

/// The OpenAI-compatible endpoint of a running runtime.
pub fn local_endpoint(url: &str) -> (r: String)
    ensures
        r@ == url@ + "/v1"@,
{
    let mut s = String::from_str(url);
    push_chars(&mut s, &chars_of("/v1"));
    s
}

/// Only the pinned runtime release is accepted.
pub fn runtime_version_ok(version: Option<&str>) -> (r: bool)
    ensures
        r == (version matches Some(v) && v@ == RUNTIME_VERSION@),
{
    match version {
        Some(v) => eq_lit(&chars_of(v), RUNTIME_VERSION),
        None => false,
    }
}

/// Milliseconds reported by the runtime test, capped at `u32::MAX`.
pub fn capped_ms(elapsed_ms: u128) -> (r: u32)
    ensures
        r == if elapsed_ms > u32::MAX as u128 {
            u32::MAX as u128
        } else {
            elapsed_ms
        },
{
    if elapsed_ms > u32::MAX as u128 {
        u32::MAX
    } else {
        elapsed_ms as u32
    }
}

/// Progress at the start of a model download.
pub fn download_started(model: String, total: u64) -> (r: Progress)
    ensures
        r.model@ == model@,
        r.downloaded == 0,
        r.total == total,
        r.phase@ == "downloading"@,
        r.error is None,
{
    Progress { model, downloaded: 0, total, phase: String::from_str("downloading"), error: None }
}

/// Progress when a model download ends: complete, or stopped with the error.
pub fn download_finished(progress: &mut Progress, result: &Result<(), String>)
    ensures
        final(progress).model@ == old(progress).model@,
        final(progress).downloaded == old(progress).downloaded,
        final(progress).total == old(progress).total,
        result is Ok ==> final(progress).phase@ == "complete"@ && final(progress).error is None,
        result matches Err(e) ==> final(progress).phase@ == "stopped"@ && final(progress).error
            is Some && final(progress).error->Some_0@ == e@,
{
    match result {
        Ok(()) => {
            progress.phase = String::from_str("complete");
            progress.error = None;
        },
        Err(e) => {
            progress.phase = String::from_str("stopped");
            progress.error = Some(e.clone());
        },
    }
}


/// How long the runtime may take to answer its version request.
pub const STARTUP_LIMIT_MS: u64 = 60000;
/// The pause between two version requests.
pub const POLL_MS: u64 = 100;
/// How long a runtime that answered is watched before it is trusted with
/// the port: the supervisor takes up to a second to clean up an engine that
/// failed to bind.
pub const SETTLE_MS: u64 = 1200;

/// What one round of waiting for the runtime observed.
pub enum StartupProbe {
    /// The runtime process has exited.
    Exited,
    /// The version request got no successful answer.
    NoAnswer,
    /// The runtime answered with this `version` field, if it was a string.
    Answered(Option<String>),
}

/// What the launcher does next.
pub enum StartupStep {
    /// Startup failed with this message.
    Fail(String),
    /// Wait `POLL_MS` and probe again.
    Poll,
    /// Wait `SETTLE_MS`, then confirm the process still runs.
    Settle,
}

/// The message for each way in which startup can fail.
pub open spec fn startup_failure(probe: StartupProbe, elapsed_ms: u64) -> Option<Seq<char>> {
    if elapsed_ms >= STARTUP_LIMIT_MS {
        Some("Ollama startup timed out"@)
    } else {
        match probe {
            StartupProbe::Exited => Some("Ollama failed to start"@),
            StartupProbe::NoAnswer => None,
            StartupProbe::Answered(v) => if v matches Some(s) && s@ == RUNTIME_VERSION@ {
                None
            } else {
                Some("Unexpected Ollama runtime version"@)
            },
        }
    }
}

/// One round of the startup loop: a round that starts `elapsed_ms` after launch
/// either fails startup, asks for another probe, or, when the pinned
/// release answered in time, moves on to the settle check.
pub fn startup_step(probe: StartupProbe, elapsed_ms: u64) -> (r: StartupStep)
    ensures
        match startup_failure(probe, elapsed_ms) {
            Some(m) => r matches StartupStep::Fail(e) && e@ == m,
            None => if probe is NoAnswer {
                r is Poll
            } else {
                r is Settle
            },
        },
{
    if elapsed_ms >= STARTUP_LIMIT_MS {
        return StartupStep::Fail(String::from_str("Ollama startup timed out"));
    }
    match probe {
        StartupProbe::Exited => StartupStep::Fail(String::from_str("Ollama failed to start")),
        StartupProbe::NoAnswer => StartupStep::Poll,
        StartupProbe::Answered(v) => {
            let ok = match &v {
                Some(s) => runtime_version_ok(Some(s.as_str())),
                None => false,
            };
            if ok {
                StartupStep::Settle
            } else {
                StartupStep::Fail(String::from_str("Unexpected Ollama runtime version"))
            }
        },
    }
}

/// After the settle pause the runtime is trusted only if its process still
/// runs: an engine that lost the port race exits.
pub fn settled(exited: bool) -> (r: Result<(), String>)
    ensures
        exited <==> (r matches Err(m) && m@ == "Ollama failed to bind its private port"@),
        !exited <==> r is Ok,
{
    if exited {
        Err(String::from_str("Ollama failed to bind its private port"))
    } else {
        Ok(())
    }
}

/// Before a request the runtime needs a live app and a selected model.
pub fn ready_selection(shutting_down: bool, selected: Option<String>) -> (r: Result<String, String>)
    ensures
        shutting_down ==> (r matches Err(m) && m@ == "App is shutting down"@),
        !shutting_down && selected is None ==> (r matches Err(m) && m@
            == "Select a downloaded LLM model first"@),
        !shutting_down && selected is Some ==> (r matches Ok(s) && s@ == selected->Some_0@),
{
    if shutting_down {
        return Err(String::from_str("App is shutting down"));
    }
    match selected {
        Some(id) => Ok(id),
        None => Err(String::from_str("Select a downloaded LLM model first")),
    }
}

/// A selected model is used only when every file of it is present.
pub fn selected_installed(installed: bool) -> (r: Result<(), String>)
    ensures
        installed <==> r is Ok,
        !installed ==> (r matches Err(m) && m@ == "Selected LLM is missing or incomplete"@),
{
    if installed {
        Ok(())
    } else {
        Err(String::from_str("Selected LLM is missing or incomplete"))
    }
}

/// The runtime test passes only when the model said something.
pub fn test_reply(content: Option<&str>) -> (r: Result<(), String>)
    ensures
        (content matches Some(c) && c@.len() > 0) <==> r is Ok,
        r matches Err(m) ==> m@ == "Model returned no text"@,
{
    match content {
        Some(c) => if c.unicode_len() > 0 {
            Ok(())
        } else {
            Err(String::from_str("Model returned no text"))
        },
        None => Err(String::from_str("Model returned no text")),
    }
}

} // verus!
