//! SHA-256 digests, written as lowercase hexadecimal the way the desktop app
//! records and compares them.
use sha2::{Digest, Sha256};
use vstd::prelude::*;

verus! {

/// The SHA-256 digest of `data` as computed by the `sha2` crate.
pub uninterp spec fn sha256(data: Seq<u8>) -> Seq<u8>;

/// `sha2::Sha256::digest`: the result is the named digest of exactly the
/// bytes given, and it is 32 bytes long (the hash's fixed output size).
#[verifier::external_body]
fn sha256_digest(data: &[u8]) -> (r: Vec<u8>)
    ensures
        r@ == sha256(data@),
        r@.len() == 32,
{
    Sha256::digest(data).to_vec()
}

/// The lowercase hexadecimal digit for a value below sixteen.
pub open spec fn hex_digit(n: int) -> char {
    if n < 10 {
        (48 + n) as char
    } else {
        (87 + n) as char
    }
}

/// Two lowercase hexadecimal digits per byte, high nibble first.
pub open spec fn hex_lower(b: Seq<u8>) -> Seq<char>
    decreases b.len(),
{
    if b.len() == 0 {
        Seq::empty()
    } else {
        hex_lower(b.drop_last()) + seq![hex_digit((b.last() / 16) as int), hex_digit((b.last() % 16) as int)]
    }
}

fn digit(n: u8) -> (c: char)
    requires
        n < 16,
    ensures
        c == hex_digit(n as int),
{
    if n < 10 {
        (n + 48) as char
    } else {
        (n + 87) as char
    }
}

/// Lowercase hexadecimal of `bytes`.
pub fn to_hex(bytes: &[u8]) -> (r: String)
    ensures
        r@ == hex_lower(bytes@),
        r@.len() == 2 * bytes@.len(),
{
    let mut out = String::new();
    let mut i: usize = 0;
    while i < bytes.len()
        invariant
            i <= bytes@.len(),
            out@ == hex_lower(bytes@.subrange(0, i as int)),
            out@.len() == 2 * i,
        decreases bytes@.len() - i,
    {
        proof {
            assert(bytes@.subrange(0, i + 1).drop_last() =~= bytes@.subrange(0, i as int));
        }
        let b = bytes[i];
        crate::text::push_char(&mut out, digit(b / 16));
        crate::text::push_char(&mut out, digit(b % 16));
        i = i + 1;
        assert(out@ =~= hex_lower(bytes@.subrange(0, i as int)));
    }
    assert(bytes@.subrange(0, bytes@.len() as int) =~= bytes@);
    out
}

/// The SHA-256 digest of `data` in lowercase hexadecimal (64 characters).
pub fn sha256_hex(data: &[u8]) -> (r: String)
    ensures
        r@ == hex_lower(sha256(data@)),
        r@.len() == 64,
{
    let d = sha256_digest(data);
    to_hex(d.as_slice())
}

/// The SHA-256 digest of the UTF-8 encoding of `text`, in lowercase hexadecimal.
pub fn text_sha256_hex(text: &str) -> (r: String)
    ensures
        r@ == hex_lower(sha256(vstd::utf8::encode_utf8(text@))),
{
    broadcast use vstd::string::group_string_axioms;

    sha256_hex(text.as_bytes())
}


/// A running `sha2::Sha256` hasher. Its declaration is refused by Verus
/// (`sha2::Sha256` names a deeply generic type whose parameters and bounds
/// cannot all be declared), so it is held here as an opaque value.
#[verifier::external_body]
pub struct Hasher {
    inner: Sha256,
}

/// A SHA-256 computed over bytes fed in chunks, so that files of any size
/// are hashed without holding them whole. Its view is the bytes fed so far.
pub struct StreamDigest {
    hasher: Hasher,
    seen: Ghost<Seq<u8>>,
}

impl View for StreamDigest {
    type V = Seq<u8>;

    closed spec fn view(&self) -> Seq<u8> {
        self.seen@
    }
}

impl StreamDigest {
    /// `Sha256::new`: a hasher that has seen nothing.
    #[verifier::external_body]
    pub fn new() -> (r: Self)
        ensures
            r@ == Seq::<u8>::empty(),
    {
        StreamDigest { hasher: Hasher { inner: Sha256::new() }, seen: Ghost(Seq::empty()) }
    }

    /// `Digest::update`: feeds `chunk` after the bytes already seen.
    #[verifier::external_body]
    pub fn update(&mut self, chunk: &[u8])
        ensures
            final(self)@ == old(self)@ + chunk@,
    {
        self.hasher.inner.update(chunk)
    }

    /// `Digest::finalize`: the digest of all bytes fed, in order; the same
    /// digest as `sha2::Sha256::digest` of those bytes at once, 32 bytes
    /// long.
    #[verifier::external_body]
    pub fn finish(self) -> (r: Vec<u8>)
        ensures
            r@ == sha256(self@),
            r@.len() == 32,
    {
        self.hasher.inner.finalize().to_vec()
    }

    /// The lowercase hexadecimal digest of all bytes fed.
    pub fn finish_hex(self) -> (r: String)
        ensures
            r@ == hex_lower(sha256(self@)),
            r@.len() == 64,
    {
        let d = self.finish();
        to_hex(d.as_slice())
    }
}

} // verus!
