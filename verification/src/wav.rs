//! The mobile wire format is bounded PCM, so no external decoder is needed:
//! a RIFF/WAVE file whose `fmt ` chunk announces 16 kHz mono PCM16 and whose
//! single `data` chunk holds at most two minutes of samples.
use vstd::prelude::*;

verus! {

/// Largest accepted `data` chunk: 120 s of 16 kHz mono 16-bit samples.
pub const MAX_PCM: usize = 3840000;

/// Largest accepted upload body: the PCM bound plus room for headers.
pub const MAX_BODY: usize = 3848192;

/// Little-endian unsigned 32-bit value stored at `n`.
pub open spec fn u32_le(b: Seq<u8>, n: int) -> int {
    b[n] + b[n + 1] * 256 + b[n + 2] * 65536 + b[n + 3] * 16777216
}

/// The four bytes at `n` spell `t0 t1 t2 t3`.
pub open spec fn tag_at(b: Seq<u8>, n: int, t0: u8, t1: u8, t2: u8, t3: u8) -> bool {
    b[n] == t0 && b[n + 1] == t1 && b[n + 2] == t2 && b[n + 3] == t3
}

pub open spec fn is_riff(b: Seq<u8>) -> bool {
    tag_at(b, 0, 0x52, 0x49, 0x46, 0x46)
}

pub open spec fn is_wave(b: Seq<u8>) -> bool {
    tag_at(b, 8, 0x57, 0x41, 0x56, 0x45)
}

pub open spec fn is_fmt_tag(b: Seq<u8>, n: int) -> bool {
    tag_at(b, n, 0x66, 0x6d, 0x74, 0x20)
}

pub open spec fn is_data_tag(b: Seq<u8>, n: int) -> bool {
    tag_at(b, n, 0x64, 0x61, 0x74, 0x61)
}

/// The first sixteen bytes of a `fmt ` body starting at `s` describe PCM
/// (1), mono (1), 16000 Hz, 32000 bytes/s, block align 2, 16 bits.
pub open spec fn fmt_ok(b: Seq<u8>, s: int) -> bool {
    &&& b[s] == 1 && b[s + 1] == 0
    &&& b[s + 2] == 1 && b[s + 3] == 0
    &&& b[s + 4] == 0x80 && b[s + 5] == 0x3e && b[s + 6] == 0 && b[s + 7] == 0
    &&& b[s + 8] == 0x00 && b[s + 9] == 0x7d && b[s + 10] == 0 && b[s + 11] == 0
    &&& b[s + 12] == 2 && b[s + 13] == 0
    &&& b[s + 14] == 16 && b[s + 15] == 0
}

/// Walks the chunk list from `offset` with the `fmt `/`data` findings so far.
/// `None` is a rejected layout; otherwise the final offset, whether a format
/// chunk was seen, and the range of the data chunk, if any.
pub open spec fn walk(b: Seq<u8>, offset: int, format: bool, data: Option<(int, int)>) -> Option<
    (int, bool, Option<(int, int)>),
>
    decreases b.len() + 1 - offset,
{
    if offset < 0 || offset + 8 > b.len() {
        Some((offset, format, data))
    } else {
        let size = u32_le(b, offset + 4);
        let start = offset + 8;
        let end = start + size;
        let next = end + size % 2;
        proof {
            assert(size >= 0);
            assert(size % 2 >= 0);
        }
        if end > b.len() {
            None
        } else if is_fmt_tag(b, offset) {
            if format || size < 16 || !fmt_ok(b, start) || next > usize::MAX {
                None
            } else {
                walk(b, next, true, data)
            }
        } else if is_data_tag(b, offset) {
            if data is Some || size == 0 || size > MAX_PCM || size % 2 != 0 || next > usize::MAX {
                None
            } else {
                walk(b, next, format, Some((start, end)))
            }
        } else if next > usize::MAX {
            None
        } else {
            walk(b, next, format, data)
        }
    }
}

/// The byte range of the PCM samples of a valid upload, or `None`.
pub open spec fn pcm_range(b: Seq<u8>) -> Option<(int, int)> {
    if b.len() < 44 || !is_riff(b) || !is_wave(b) || u32_le(b, 4) + 8 != b.len() {
        None
    } else {
        match walk(b, 12, false, None) {
            None => None,
            Some((offset, format, data)) => if !format || offset != b.len() {
                None
            } else {
                data
            },
        }
    }
}

pub open spec fn invalid_message() -> Seq<char> {
    "16kHz 모노 16비트 PCM WAV 파일이 필요합니다."@
}

fn invalid() -> (r: String)
    ensures
        r@ == invalid_message(),
{
    String::from_str("16kHz 모노 16비트 PCM WAV 파일이 필요합니다.")
}

fn u32_at(bytes: &[u8], n: usize) -> (r: usize)
    requires
        n + 4 <= bytes@.len(),
    ensures
        r == u32_le(bytes@, n as int),
{
    let v: u32 = bytes[n] as u32 + bytes[n + 1] as u32 * 256 + bytes[n + 2] as u32 * 65536
        + bytes[n + 3] as u32 * 16777216;
    v as usize
}

fn fmt_body_ok(f: &[u8], s: usize) -> (r: bool)
    requires
        s + 16 <= f@.len(),
    ensures
        r == fmt_ok(f@, s as int),
{
    f[s] == 1 && f[s + 1] == 0 && f[s + 2] == 1 && f[s + 3] == 0 && f[s + 4] == 0x80 && f[s + 5]
        == 0x3e && f[s + 6] == 0 && f[s + 7] == 0 && f[s + 8] == 0x00 && f[s + 9] == 0x7d && f[s
        + 10] == 0 && f[s + 11] == 0 && f[s + 12] == 2 && f[s + 13] == 0 && f[s + 14] == 16 && f[s
        + 15] == 0
}

/// Returns the PCM samples of a 16 kHz mono PCM16 WAV upload; any other
/// layout (wrong header, wrong RIFF size, a second `fmt ` or `data` chunk,
/// an odd, empty or oversized data chunk, a truncated chunk, trailing bytes)
/// is rejected with one message.
pub fn pcm(bytes: &[u8]) -> (r: Result<&[u8], String>)
    ensures
        match pcm_range(bytes@) {
            Some((s, e)) => r is Ok && r->Ok_0@ == bytes@.subrange(s, e),
            None => r is Err,
        },
        r matches Err(e) ==> e@ == invalid_message(),
{
    let len = bytes.len();
    if len < 44 || !(bytes[0] == 0x52 && bytes[1] == 0x49 && bytes[2] == 0x46 && bytes[3] == 0x46)
        || !(bytes[8] == 0x57 && bytes[9] == 0x41 && bytes[10] == 0x56 && bytes[11] == 0x45) {
        return Err(invalid());
    }
    let riff = u32_at(bytes, 4);
    if riff > len || len - riff != 8 {
        return Err(invalid());
    }
    let ghost b = bytes@;
    let mut offset: usize = 12;
    let mut format = false;
    let mut data: Option<(usize, usize)> = None;
    while len >= 8 && offset <= len - 8
        invariant
            len == b.len(),
            b == bytes@,
            12 <= offset <= len + 1,
            pcm_range(b) == match walk(b, offset as int, format, match data {
                Some((s, e)) => Some((s as int, e as int)),
                None => None,
            }) {
                None => None,
                Some((o, f, d)) => if !f || o != b.len() {
                    None
                } else {
                    d
                },
            },
            data matches Some((s, e)) ==> s <= e <= len,
        decreases len + 1 - offset,
    {
        let size = u32_at(bytes, offset + 4);
        let start = offset + 8;
        if size > len - start {
            return Err(invalid());
        }
        let end = start + size;
        let pad = size % 2;
        if end == usize::MAX && pad == 1 {
            return Err(invalid());
        }
        let next = end + pad;
        if bytes[offset] == 0x66 && bytes[offset + 1] == 0x6d && bytes[offset + 2] == 0x74
            && bytes[offset + 3] == 0x20 {
            if format || size < 16 || !fmt_body_ok(bytes, start) {
                return Err(invalid());
            }
            format = true;
        } else if bytes[offset] == 0x64 && bytes[offset + 1] == 0x61 && bytes[offset + 2] == 0x74
            && bytes[offset + 3] == 0x61 {
            if data.is_some() || size == 0 || size > MAX_PCM || size % 2 != 0 {
                return Err(invalid());
            }
            data = Some((start, end));
        }
        offset = next;
    }
    if !format || offset != len {
        return Err(invalid());
    }
    match data {
        Some((s, e)) => Ok(&bytes[s..e]),
        None => Err(invalid()),
    }
}


/// The four little-endian bytes of `n`.
pub open spec fn le32(n: int) -> Seq<u8> {
    seq![(n % 256) as u8, (n / 256 % 256) as u8, (n / 65536 % 256) as u8, (n / 16777216 % 256) as u8]
}

/// The bytes of a 16 kHz mono PCM16 WAV file holding `samples`: the RIFF
/// header, a 16-byte `fmt ` chunk, and one `data` chunk.
pub open spec fn wav_bytes(samples: Seq<u8>) -> Seq<u8> {
    seq![0x52u8, 0x49, 0x46, 0x46] + le32(36 + samples.len() as int) + seq![0x57u8, 0x41, 0x56, 0x45]
        + seq![0x66u8, 0x6d, 0x74, 0x20] + le32(16) + seq![1u8, 0, 1, 0] + le32(16000) + le32(
        32000,
    ) + seq![2u8, 0, 16, 0] + seq![0x64u8, 0x61, 0x74, 0x61] + le32(samples.len() as int)
        + samples
}

fn push_le32(out: &mut Vec<u8>, n: u32)
    ensures
        final(out)@ == old(out)@ + le32(n as int),
{
    out.push((n % 256) as u8);
    out.push((n / 256 % 256) as u8);
    out.push((n / 65536 % 256) as u8);
    out.push((n / 16777216 % 256) as u8);
    assert(final(out)@ =~= old(out)@ + le32(n as int));
}

fn push_all(out: &mut Vec<u8>, bytes: &[u8])
    ensures
        final(out)@ == old(out)@ + bytes@,
{
    let ghost before = out@;
    let mut i: usize = 0;
    while i < bytes.len()
        invariant
            i <= bytes@.len(),
            out@ == before + bytes@.subrange(0, i as int),
        decreases bytes@.len() - i,
    {
        out.push(bytes[i]);
        i = i + 1;
        assert(out@ =~= before + bytes@.subrange(0, i as int));
    }
    assert(bytes@.subrange(0, bytes@.len() as int) =~= bytes@);
}

/// Wraps PCM16 samples recorded at 16 kHz mono in a WAV file, the form the
/// speech engines read from standard input.
pub fn wav_file(pcm: &[u8]) -> (r: Vec<u8>)
    requires
        pcm@.len() + 36 <= u32::MAX,
    ensures
        r@ == wav_bytes(pcm@),
{
    let mut out: Vec<u8> = Vec::new();
    push_all(&mut out, &[0x52u8, 0x49, 0x46, 0x46]);
    push_le32(&mut out, (pcm.len() + 36) as u32);
    push_all(&mut out, &[0x57u8, 0x41, 0x56, 0x45, 0x66, 0x6d, 0x74, 0x20]);
    push_le32(&mut out, 16);
    push_all(&mut out, &[1u8, 0, 1, 0]);
    push_le32(&mut out, 16000);
    push_le32(&mut out, 32000);
    push_all(&mut out, &[2u8, 0, 16, 0, 0x64, 0x61, 0x74, 0x61]);
    push_le32(&mut out, pcm.len() as u32);
    push_all(&mut out, pcm);
    assert(out@ =~= wav_bytes(pcm@));
    out
}

proof fn lemma_le32(b: Seq<u8>, at: int, n: int)
    requires
        0 <= n < 0x1_0000_0000,
        0 <= at,
        at + 4 <= b.len(),
        b.subrange(at, at + 4) == le32(n),
    ensures
        u32_le(b, at) == n,
{
    assert(b[at] == le32(n)[0]);
    assert(b[at + 1] == le32(n)[1]);
    assert(b[at + 2] == le32(n)[2]);
    assert(b[at + 3] == le32(n)[3]);
    assert(n % 256 + (n / 256 % 256) * 256 + (n / 65536 % 256) * 65536 + (n / 16777216 % 256)
        * 16777216 == n) by (nonlinear_arith)
        requires
            0 <= n < 0x1_0000_0000,
    {
        assert(n == 256 * (n / 256) + n % 256);
        assert(n / 256 == 256 * (n / 65536) + n / 256 % 256);
        assert(n / 65536 == 256 * (n / 16777216) + n / 65536 % 256);
        assert(n / 16777216 < 256);
    }
}

/// The parser reads back exactly what the writer wrapped: for samples that
/// a phone upload may carry (an even, non-zero number of bytes up to two
/// minutes), the PCM range of the WAV file is the samples.
pub proof fn lemma_wav_round_trip(samples: Seq<u8>)
    requires
        0 < samples.len() <= MAX_PCM,
        samples.len() % 2 == 0,
    ensures
        pcm_range(wav_bytes(samples)) == Some((44int, 44 + samples.len() as int)),
        wav_bytes(samples).subrange(44, 44 + samples.len() as int) == samples,
{
    let b = wav_bytes(samples);
    let len = samples.len() as int;
    assert(b.len() == 44 + len);
    assert(b.subrange(4, 8) =~= le32(36 + len));
    lemma_le32(b, 4, 36 + len);
    assert(b.subrange(16, 20) =~= le32(16));
    lemma_le32(b, 16, 16);
    assert(b.subrange(40, 44) =~= le32(len));
    lemma_le32(b, 40, len);
    assert(le32(16000) =~= seq![0x80u8, 0x3e, 0, 0]);
    assert(le32(32000) =~= seq![0x00u8, 0x7d, 0, 0]);
    assert(le32(16) =~= seq![16u8, 0, 0, 0]);
    assert(is_riff(b));
    assert(is_wave(b));
    assert(is_fmt_tag(b, 12));
    assert(fmt_ok(b, 20));
    assert(is_data_tag(b, 36));
    assert(!is_data_tag(b, 12));
    assert(walk(b, 44 + len, true, Some((44, 44 + len))) == Some((44 + len, true, Some((44int, 44 + len)))));
    assert(walk(b, 36, true, None) == Some((44 + len, true, Some((44int, 44 + len)))));
    assert(walk(b, 12, false, None) == Some((44 + len, true, Some((44int, 44 + len)))));
    assert(b.subrange(44, 44 + len) =~= samples);
}


/// A chunk with tag `tag` holding `body`, padded to an even length.
pub open spec fn chunk(tag: Seq<u8>, body: Seq<u8>) -> Seq<u8> {
    tag + le32(body.len() as int) + body + if body.len() % 2 == 1 {
        seq![0u8]
    } else {
        Seq::empty()
    }
}

/// The RIFF header announcing `riff` bytes, and the 16 kHz mono PCM16
/// `fmt ` chunk: the first 36 bytes of an upload.
pub open spec fn fmt_header(riff: int) -> Seq<u8> {
    seq![0x52u8, 0x49, 0x46, 0x46] + le32(riff) + seq![0x57u8, 0x41, 0x56, 0x45] + seq![
        0x66u8,
        0x6d,
        0x74,
        0x20,
    ] + le32(16) + seq![1u8, 0, 1, 0] + le32(16000) + le32(32000) + seq![2u8, 0, 16, 0]
}

/// The `data` chunk holding `samples`.
pub open spec fn data_chunk(samples: Seq<u8>) -> Seq<u8> {
    seq![0x64u8, 0x61, 0x74, 0x61] + le32(samples.len() as int) + samples
}

/// The WAV file of `samples` with the chunk `tag`/`body` placed between
/// its `fmt ` and `data` chunks, and the RIFF size counting it.
pub open spec fn wav_with_chunk(samples: Seq<u8>, tag: Seq<u8>, body: Seq<u8>) -> Seq<u8> {
    let x = chunk(tag, body);
    fmt_header(36 + x.len() + samples.len() as int) + x + data_chunk(samples)
}

proof fn lemma_header_start(b: Seq<u8>, riff: int)
    requires
        0 <= riff < 0x1_0000_0000,
        b.len() >= 36,
        b.subrange(0, 36) == fmt_header(riff),
    ensures
        is_riff(b),
        is_wave(b),
        u32_le(b, 4) == riff,
        is_fmt_tag(b, 12),
        !is_data_tag(b, 12),
        u32_le(b, 16) == 16,
        fmt_ok(b, 20),
{
    let h = fmt_header(riff);
    assert(h.len() == 36);
    assert(le32(16000) =~= seq![0x80u8, 0x3e, 0, 0]);
    assert(le32(32000) =~= seq![0x00u8, 0x7d, 0, 0]);
    assert(le32(16) =~= seq![16u8, 0, 0, 0]);
    assert forall|k: int| 0 <= k < 36 implies b[k] == #[trigger] h[k] by {
        assert(b.subrange(0, 36)[k] == b[k]);
    }
    assert(h.subrange(4, 8) =~= le32(riff));
    assert(h.subrange(16, 20) =~= le32(16));
    assert(h.subrange(0, 4) =~= seq![0x52u8, 0x49, 0x46, 0x46]);
    assert(h.subrange(8, 12) =~= seq![0x57u8, 0x41, 0x56, 0x45]);
    assert(b[0] == h.subrange(0, 4)[0] && b[1] == h.subrange(0, 4)[1] && b[2] == h.subrange(0, 4)[2]
        && b[3] == h.subrange(0, 4)[3]);
    assert(b[8] == h.subrange(8, 12)[0] && b[9] == h.subrange(8, 12)[1] && b[10] == h.subrange(8, 12)[2]
        && b[11] == h.subrange(8, 12)[3]);
    let t = h.subrange(12, 16);
    assert(t =~= seq![0x66u8, 0x6d, 0x74, 0x20]);
    assert(b[12] == t[0] && b[13] == t[1] && b[14] == t[2] && b[15] == t[3]);
    let f = h.subrange(20, 36);
    assert(f =~= seq![1u8, 0, 1, 0, 0x80, 0x3e, 0, 0, 0x00, 0x7d, 0, 0, 2, 0, 16, 0]);
    assert forall|k: int| 0 <= k < 16 implies b[20 + k] == #[trigger] f[k] by {
        assert(b[20 + k] == h[20 + k]);
    }
    assert(b.subrange(4, 8) =~= h.subrange(4, 8));
    assert(b.subrange(16, 20) =~= h.subrange(16, 20));
    lemma_le32(b, 4, riff);
    lemma_le32(b, 16, 16);
}

proof fn lemma_chunk_at(b: Seq<u8>, at: int, tag: Seq<u8>, body: Seq<u8>)
    requires
        tag.len() == 4,
        body.len() < 0x1_0000_0000,
        0 <= at,
        at + chunk(tag, body).len() <= b.len(),
        b.subrange(at, at + chunk(tag, body).len()) == chunk(tag, body),
    ensures
        b[at] == tag[0] && b[at + 1] == tag[1] && b[at + 2] == tag[2] && b[at + 3] == tag[3],
        u32_le(b, at + 4) == body.len(),
        chunk(tag, body).len() == 8 + body.len() + body.len() % 2,
{
    let x = chunk(tag, body);
    assert forall|k: int| 0 <= k < x.len() implies b[at + k] == #[trigger] x[k] by {
        assert(b.subrange(at, at + x.len())[k] == b[at + k]);
    }
    assert(b[at] == x[0] && b[at + 1] == x[1] && b[at + 2] == x[2] && b[at + 3] == x[3]);
    assert(x.subrange(4, 8) =~= le32(body.len() as int));
    assert(b.subrange(at + 4, at + 8) =~= x.subrange(4, 8));
    lemma_le32(b, at + 4, body.len() as int);
}

/// Chunks with other tags (such as `LIST`) are skipped: placing one
/// between the format and data chunks of a valid upload, with the RIFF
/// size adjusted, leaves the samples read from it unchanged.
#[verifier::rlimit(50)]
pub proof fn lemma_other_chunks_are_skipped(samples: Seq<u8>, tag: Seq<u8>, body: Seq<u8>)
    requires
        0 < samples.len() <= MAX_PCM,
        samples.len() % 2 == 0,
        tag.len() == 4,
        tag != seq![0x66u8, 0x6d, 0x74, 0x20],
        tag != seq![0x64u8, 0x61, 0x74, 0x61],
        44 + chunk(tag, body).len() + samples.len() <= u32::MAX,
    ensures
        ({
            let b = wav_with_chunk(samples, tag, body);
            let s = 44 + chunk(tag, body).len() as int;
            &&& pcm_range(b) == Some((s, s + samples.len() as int))
            &&& b.subrange(s, s + samples.len() as int) == samples
        }),
{
    let x = chunk(tag, body);
    let d = data_chunk(samples);
    let len = samples.len() as int;
    let xl = x.len() as int;
    let riff = 36 + xl + len;
    let h = fmt_header(riff);
    let b = wav_with_chunk(samples, tag, body);
    assert(b == h + x + d);
    assert(h.len() == 36);
    assert(d.len() == 8 + len);
    assert(b.len() == 44 + xl + len);
    assert(b.subrange(0, 36) =~= h);
    lemma_header_start(b, riff);
    assert(b.subrange(36, 36 + xl) =~= x);
    lemma_chunk_at(b, 36, tag, body);
    assert(b.subrange(36 + xl, 44 + xl + len) =~= chunk(seq![0x64u8, 0x61, 0x74, 0x61], samples)) by {
        assert(chunk(seq![0x64u8, 0x61, 0x74, 0x61], samples) =~= d);
    }
    lemma_chunk_at(b, 36 + xl, seq![0x64u8, 0x61, 0x74, 0x61], samples);
    assert(!is_fmt_tag(b, 36)) by {
        if is_fmt_tag(b, 36) {
            assert(tag =~= seq![0x66u8, 0x6d, 0x74, 0x20]);
        }
    }
    assert(!is_data_tag(b, 36)) by {
        if is_data_tag(b, 36) {
            assert(tag =~= seq![0x64u8, 0x61, 0x74, 0x61]);
        }
    }
    assert(is_data_tag(b, 36 + xl));
    assert(!is_fmt_tag(b, 36 + xl));
    let e = 44 + xl + len;
    assert(walk(b, e, true, Some((44 + xl, e))) == Some((e, true, Some((44 + xl, e)))));
    assert(walk(b, 36 + xl, true, None) == Some((e, true, Some((44 + xl, e)))));
    assert(walk(b, 36, true, None) == Some((e, true, Some((44 + xl, e)))));
    assert(walk(b, 12, false, None) == Some((e, true, Some((44 + xl, e)))));
    assert(b.subrange(44 + xl, e) =~= samples);
}

} // verus!
