//! SHA-256 digests and the fingerprints they are written as.
use sha2::Digest;
use vstd::prelude::*;

verus! {

/// A running SHA-256 computation of the `sha2` crate.
#[verifier::external_type_specification]
#[verifier::external_body]
pub struct ExSha256(sha2::Sha256);

/// The bytes that a running computation has taken in so far.
pub uninterp spec fn sha256_absorbed(hasher: sha2::Sha256) -> Seq<u8>;

/// The SHA-256 digest of a message.
pub uninterp spec fn sha256(message: Seq<u8>) -> Seq<u8>;

/// SHA-256 is defined for messages of fewer than two to the power of 64 bits.
pub open spec fn sha256_message(message: Seq<u8>) -> bool {
    message.len() < 0x2000_0000_0000_0000
}

/// `Digest::new` of `Sha256` in the `sha2` crate: nothing has been taken in.
#[verifier::external_body]
fn sha256_new() -> (r: sha2::Sha256)
    ensures
        sha256_absorbed(r) == Seq::<u8>::empty(),
{
    sha2::Sha256::new()
}

/// `Digest::update` of `Sha256` in the `sha2` crate: the bytes follow those
/// that were taken in before.
#[verifier::external_body]
fn sha256_update(hasher: &mut sha2::Sha256, bytes: &[u8])
    ensures
        sha256_absorbed(*final(hasher)) == sha256_absorbed(*old(hasher)) + bytes@,
{
    hasher.update(bytes)
}

/// `Digest::finalize` of `Sha256` in the `sha2` crate: the 32 bytes of the
/// digest of what was taken in. It counts the bits in 64 bits.
#[verifier::external_body]
fn sha256_finalize(hasher: sha2::Sha256) -> (r: Vec<u8>)
    requires
        sha256_message(sha256_absorbed(hasher)),
    ensures
        r@ == sha256(sha256_absorbed(hasher)),
        r@.len() == 32,
{
    hasher.finalize().to_vec()
}

/// The upper-case hexadecimal digit for `d`.
pub open spec fn hex_upper(d: int) -> char {
    if d < 10 {
        (0x30 + d) as char
    } else {
        (0x37 + d) as char
    }
}

/// How many characters the fingerprint of `len` bytes has.
pub open spec fn fingerprint_len(len: nat) -> nat {
    if len == 0 {
        0
    } else {
        (len * 3 - 1) as nat
    }
}

/// `bytes` as upper-case hexadecimal, two digits a byte, with a colon between
/// one byte and the next.
pub open spec fn fingerprint(bytes: Seq<u8>) -> Seq<char> {
    Seq::new(
        fingerprint_len(bytes.len()),
        |i: int|
            if i % 3 == 0 {
                hex_upper(bytes[i / 3] as int / 16)
            } else if i % 3 == 1 {
                hex_upper(bytes[i / 3] as int % 16)
            } else {
                ':'
            },
    )
}

fn hex_upper_digit(d: u8) -> (r: char)
    requires
        d < 16,
    ensures
        r == hex_upper(d as int),
{
    if d < 10 {
        (0x30 + d) as char
    } else {
        (0x37 + d) as char
    }
}

/// Writes `bytes` as a fingerprint.
pub fn fingerprint_hex(bytes: &[u8]) -> (r: String)
    ensures
        r@ == fingerprint(bytes@),
{
    let mut out = String::new();
    let n = bytes.len();
    for i in 0..n
        invariant
            n == bytes@.len(),
            out@ == fingerprint(bytes@.take(i as int)),
    {
        let ghost before = bytes@.take(i as int);
        let ghost after = bytes@.take(i + 1);
        if i > 0 {
            out.push(':');
        }
        out.push(hex_upper_digit(bytes[i] / 16));
        out.push(hex_upper_digit(bytes[i] % 16));
        assert forall|k: int| 0 <= k < out@.len() implies out@[k] == fingerprint(after)[k] by {
            if k < fingerprint(before).len() {
                assert(out@[k] == fingerprint(before)[k]);
                assert(before[k / 3] == after[k / 3]);
            }
        }
        assert(out@ == fingerprint(after));
    }
    assert(bytes@.take(n as int) == bytes@);
    out
}

/// Different byte strings have different fingerprints, so that comparing
/// fingerprints compares digests.
pub proof fn law_fingerprint_injective(a: Seq<u8>, b: Seq<u8>)
    requires
        fingerprint(a) == fingerprint(b),
    ensures
        a == b,
{
    assert(fingerprint(a).len() == fingerprint_len(a.len()));
    assert(fingerprint(b).len() == fingerprint_len(b.len()));
    assert(a.len() == b.len());
    assert forall|i: int| 0 <= i < a.len() implies a[i] == b[i] by {
        let j = i * 3;
        assert(j / 3 == i && (j + 1) / 3 == i && j % 3 == 0 && (j + 1) % 3 == 1);
        assert(fingerprint(a)[j] == hex_upper(a[i] as int / 16));
        assert(fingerprint(b)[j] == hex_upper(b[i] as int / 16));
        assert(fingerprint(a)[j + 1] == hex_upper(a[i] as int % 16));
        assert(fingerprint(b)[j + 1] == hex_upper(b[i] as int % 16));
    }
    assert(a == b);
}

/// A SHA-256 computation over a message that arrives in blocks.
pub struct Sha256Stream {
    hasher: sha2::Sha256,
}

impl View for Sha256Stream {
    type V = Seq<u8>;

    closed spec fn view(&self) -> Seq<u8> {
        sha256_absorbed(self.hasher)
    }
}

impl Sha256Stream {
    /// A computation over the empty message.
    pub fn new() -> (r: Self)
        ensures
            r@ == Seq::<u8>::empty(),
    {
        Sha256Stream { hasher: sha256_new() }
    }

    /// Puts `block` behind the message.
    pub fn update(&mut self, block: &[u8])
        ensures
            final(self)@ == old(self)@ + block@,
    {
        sha256_update(&mut self.hasher, block);
    }

    /// The fingerprint of the message's digest.
    pub fn finish(self) -> (r: String)
        requires
            sha256_message(self@),
        ensures
            r@ == fingerprint(sha256(self@)),
            r@.len() == 95,
    {
        let digest = sha256_finalize(self.hasher);
        fingerprint_hex(&digest)
    }
}

/// The fingerprint of the digest of `message`, in one call.
pub fn sha256_fingerprint(message: &[u8]) -> (r: String)
    requires
        sha256_message(message@),
    ensures
        r@ == fingerprint(sha256(message@)),
        r@.len() == 95,
{
    let mut stream = Sha256Stream::new();
    stream.update(message);
    assert(stream@ == message@);
    stream.finish()
}

/// Whether `c` is the upper-case hexadecimal digit of value `d`.
pub open spec fn hex_digit_of(c: char, d: int) -> bool {
    ||| '0' <= c <= '9' && c as int - '0' as int == d
    ||| 'A' <= c <= 'F' && c as int - 'A' as int + 10 == d
}

/// A fingerprint shows every byte, in order, by its two hexadecimal digits, with
/// a colon between one byte and the next and nothing else.
pub proof fn law_fingerprint_shows_every_byte(bytes: Seq<u8>)
    ensures
        fingerprint(bytes).len() + 1 == bytes.len() * 3 || bytes.len() == 0 && fingerprint(
            bytes,
        ).len() == 0,
        forall|i: int|
            0 <= i < bytes.len() ==> {
                &&& hex_digit_of(fingerprint(bytes)[i * 3], #[trigger] bytes[i] as int / 16)
                &&& hex_digit_of(fingerprint(bytes)[i * 3 + 1], bytes[i] as int % 16)
                &&& i < bytes.len() - 1 ==> fingerprint(bytes)[i * 3 + 2] == ':'
            },
{
    assert forall|i: int| 0 <= i < bytes.len() implies {
        &&& hex_digit_of(fingerprint(bytes)[i * 3], #[trigger] bytes[i] as int / 16)
        &&& hex_digit_of(fingerprint(bytes)[i * 3 + 1], bytes[i] as int % 16)
        &&& i < bytes.len() - 1 ==> fingerprint(bytes)[i * 3 + 2] == ':'
    } by {
        let j = i * 3;
        assert(j / 3 == i && (j + 1) / 3 == i && (j + 2) / 3 == i);
        assert(j % 3 == 0 && (j + 1) % 3 == 1 && (j + 2) % 3 == 2);
        assert(fingerprint(bytes)[j] == hex_upper(bytes[i] as int / 16));
        assert(fingerprint(bytes)[j + 1] == hex_upper(bytes[i] as int % 16));
    }
}

} // verus!
