//! Base64 text, as the wire carries binary payloads.
use base64::Engine;
use vstd::prelude::*;

verus! {

/// Why a text is not base64, as the decoder reports it.
#[verifier::external_type_specification]
#[verifier::external_body]
pub struct ExDecodeError(base64::DecodeError);

/// How many characters the base64 text of `len` bytes has.
pub open spec fn base64_len(len: nat) -> nat {
    (len + 2) / 3 * 4
}

/// The base64 character for six bits, in the standard alphabet.
pub open spec fn base64_digit(d: int) -> char {
    if d < 26 {
        (0x41 + d) as char
    } else if d < 52 {
        (0x47 + d) as char
    } else if d < 62 {
        (d - 4) as char
    } else if d == 62 {
        '+'
    } else {
        '/'
    }
}

/// The byte at `i`; 0 behind the end.
pub open spec fn byte_at(bytes: Seq<u8>, i: int) -> int {
    if i < bytes.len() {
        bytes[i] as int
    } else {
        0
    }
}

/// The `k`-th group of six bits of `bytes`, the most significant first.
pub open spec fn sextet(bytes: Seq<u8>, k: int) -> int {
    let i = k / 4 * 3;
    if k % 4 == 0 {
        byte_at(bytes, i) / 4
    } else if k % 4 == 1 {
        byte_at(bytes, i) % 4 * 16 + byte_at(bytes, i + 1) / 16
    } else if k % 4 == 2 {
        byte_at(bytes, i + 1) % 16 * 4 + byte_at(bytes, i + 2) / 64
    } else {
        byte_at(bytes, i + 2) % 64
    }
}

/// The base64 text of `bytes`: one character for every six bits begun, padded
/// with `=` to a multiple of four.
pub open spec fn base64_text(bytes: Seq<u8>) -> Seq<char> {
    Seq::new(
        base64_len(bytes.len()),
        |k: int|
            if k * 6 < bytes.len() * 8 {
                base64_digit(sextet(bytes, k))
            } else {
                '='
            },
    )
}

/// The bytes that a text is the base64 text of; `None` where there are none.
pub open spec fn base64_bytes(text: Seq<char>) -> Option<Seq<u8>> {
    if exists|bytes: Seq<u8>| #[trigger] base64_text(bytes) == text {
        Some(choose|bytes: Seq<u8>| #[trigger] base64_text(bytes) == text)
    } else {
        None
    }
}

/// The lengths whose base64 text fits in one allocation.
pub open spec fn base64_fits(len: nat) -> bool {
    base64_len(len) <= isize::MAX
}

proof fn lemma_base64_digit(a: int, b: int)
    requires
        0 <= a < 64,
        0 <= b < 64,
    ensures
        base64_digit(a) != '=',
        base64_digit(a) == base64_digit(b) ==> a == b,
{
}

proof fn lemma_sextet(bytes: Seq<u8>, k: int)
    requires
        0 <= k,
    ensures
        0 <= sextet(bytes, k) < 64,
{
}

/// The three bytes of a group, from its four groups of six bits.
proof fn lemma_group(bytes: Seq<u8>, g: int)
    requires
        0 <= g,
    ensures
        byte_at(bytes, g * 3) == sextet(bytes, g * 4) * 4 + sextet(bytes, g * 4 + 1) / 16,
        byte_at(bytes, g * 3 + 1) == sextet(bytes, g * 4 + 1) % 16 * 16 + sextet(bytes, g * 4 + 2)
            / 4,
        byte_at(bytes, g * 3 + 2) == sextet(bytes, g * 4 + 2) % 4 * 64 + sextet(bytes, g * 4 + 3),
{
    assert((g * 4) / 4 == g && (g * 4 + 1) / 4 == g && (g * 4 + 2) / 4 == g && (g * 4 + 3) / 4 == g);
}

proof fn lemma_same_digit(a: Seq<u8>, b: Seq<u8>, k: int)
    requires
        base64_text(a) == base64_text(b),
        0 <= k < base64_text(a).len(),
    ensures
        k * 6 < a.len() * 8 <==> k * 6 < b.len() * 8,
        k * 6 < a.len() * 8 ==> sextet(a, k) == sextet(b, k),
{
    lemma_sextet(a, k);
    lemma_sextet(b, k);
    lemma_base64_digit(sextet(a, k), sextet(b, k));
    lemma_base64_digit(sextet(b, k), sextet(a, k));
    assert(base64_text(a).len() == base64_len(a.len()));
    assert(base64_text(b).len() == base64_len(b.len()));
    let c = base64_text(a)[k];
    assert(c == if k * 6 < a.len() * 8 {
        base64_digit(sextet(a, k))
    } else {
        '='
    });
    assert(c == base64_text(b)[k]);
    assert(c == if k * 6 < b.len() * 8 {
        base64_digit(sextet(b, k))
    } else {
        '='
    });
}

/// Different byte strings have different base64 texts.
pub proof fn law_base64_injective(a: Seq<u8>, b: Seq<u8>)
    requires
        base64_text(a) == base64_text(b),
    ensures
        a == b,
{
    let n = base64_text(a).len() as int;
    assert(n == base64_len(a.len()));
    assert(n == base64_len(b.len()));
    if a.len() > 0 {
        lemma_same_digit(a, b, n - 1);
        lemma_same_digit(a, b, n - 2);
    }
    assert(a.len() == b.len());
    assert forall|i: int| 0 <= i < a.len() implies a[i] == b[i] by {
        let g = i / 3;
        lemma_group(a, g);
        lemma_group(b, g);
        lemma_same_digit(a, b, g * 4);
        lemma_same_digit(a, b, g * 4 + 1);
        lemma_same_digit(a, b, g * 4 + 2);
        lemma_same_digit(a, b, g * 4 + 3);
    }
    assert(a =~= b);
}

/// A base64 text stands for the bytes that it is the text of.
pub proof fn law_base64_reads_back(bytes: Seq<u8>)
    ensures
        base64_bytes(base64_text(bytes)) == Some(bytes),
{
    let text = base64_text(bytes);
    assert(base64_text(bytes) == text);
    let back = choose|back: Seq<u8>| #[trigger] base64_text(back) == text;
    law_base64_injective(back, bytes);
}

/// `Engine::encode` of the `STANDARD` engine in the `base64` crate: the padded
/// text over the standard alphabet. The encoder panics where that text does not
/// fit in one allocation.
#[verifier::external_body]
pub(crate) fn base64_encode(bytes: &[u8]) -> (r: String)
    requires
        base64_fits(bytes@.len()),
    ensures
        r@ == base64_text(bytes@),
{
    base64::engine::general_purpose::STANDARD.encode(bytes)
}

/// `Engine::decode` of the `STANDARD` engine in the `base64` crate. It takes
/// exactly the texts that the encoder gives: padding is demanded, and bits
/// behind the last byte must be zero.
#[verifier::external_body]
fn base64_engine_decode(text: &str) -> (r: Result<Vec<u8>, base64::DecodeError>)
    ensures
        r matches Ok(bytes) ==> base64_text(bytes@) == text@,
        r is Err ==> base64_bytes(text@) is None,
{
    base64::engine::general_purpose::STANDARD.decode(text)
}

/// The bytes that a base64 text stands for.
pub(crate) fn base64_decode(text: &str) -> (r: Result<Vec<u8>, base64::DecodeError>)
    ensures
        r matches Ok(bytes) ==> base64_bytes(text@) == Some(bytes@),
        r matches Ok(bytes) ==> bytes@.len() * 4 <= text@.len() * 3,
        r is Err ==> base64_bytes(text@) is None,
{
    match base64_engine_decode(text) {
        Ok(bytes) => {
            proof {
                law_base64_reads_back(bytes@);
                assert(text@.len() == base64_len(bytes@.len()));
            }
            Ok(bytes)
        },
        Err(e) => Err(e),
    }
}

/// Whether the base64 text of `len` bytes fits in one allocation.
pub(crate) fn fits_base64(len: usize) -> (r: bool)
    ensures
        r == base64_fits(len as nat),
{
    let limit: usize = isize::MAX as usize;
    let groups: usize = len / 3 + if len % 3 == 0 {
        0usize
    } else {
        1usize
    };
    assert((len + 2) / 3 == groups);
    groups <= limit / 4
}

/// A base64 text has four characters for every three bytes begun, and fits in
/// one allocation exactly where its length does.
pub proof fn law_base64_length(bytes: Seq<u8>)
    ensures
        base64_text(bytes).len() % 4 == 0,
        bytes.len() * 4 <= base64_text(bytes).len() * 3 < bytes.len() * 4 + 12,
        base64_fits(bytes.len()) <==> base64_text(bytes).len() <= isize::MAX,
{
}

/// A text stands for bytes exactly where it is their base64 text.
pub proof fn law_base64_stands_for_its_bytes(text: Seq<char>, bytes: Seq<u8>)
    ensures
        base64_bytes(text) == Some(bytes) <==> base64_text(bytes) == text,
{
    law_base64_reads_back(bytes);
    if base64_bytes(text) == Some(bytes) {
        assert(base64_text(base64_bytes(text)->0) == text);
    }
}

} // verus!
