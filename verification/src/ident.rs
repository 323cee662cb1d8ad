//! Identifiers of clips, clients and file transfers.
use vstd::prelude::*;

verus! {

/// A UUID: 128 bits, the most significant first.
#[derive(Debug, Clone, Copy, PartialEq, Eq, Structural, Hash)]
pub struct Uuid {
    pub bits: u128,
}

/// The lower-case hexadecimal digit for `d`.
pub open spec fn hex_lower(d: int) -> char {
    if d < 10 {
        (0x30 + d) as char
    } else {
        (0x57 + d) as char
    }
}

/// The last `width` hexadecimal digits of `n`.
pub open spec fn hex_digits(n: nat, width: nat) -> Seq<char>
    decreases width,
{
    if width == 0 {
        seq![]
    } else {
        hex_digits(n / 16, (width - 1) as nat).push(hex_lower(n as int % 16))
    }
}

/// A UUID as text: 32 lower-case hexadecimal digits in groups of 8, 4, 4, 4
/// and 12, with a hyphen between one group and the next.
pub open spec fn uuid_text(bits: u128) -> Seq<char> {
    let h = hex_digits(bits as nat, 32);
    h.subrange(0, 8) + seq!['-'] + h.subrange(8, 12) + seq!['-'] + h.subrange(12, 16) + seq!['-']
        + h.subrange(16, 20) + seq!['-'] + h.subrange(20, 32)
}

/// Whether the bits are those of a random UUID: version 4, variant 1.
pub open spec fn random_uuid(bits: u128) -> bool {
    &&& bits & 0xF000_0000_0000_0000_0000u128 == 0x4000_0000_0000_0000_0000u128
    &&& bits & 0xC000_0000_0000_0000u128 == 0x8000_0000_0000_0000u128
}

/// `Uuid::new_v4` of the `uuid` crate: random bits, but for those that mark
/// the UUID as random.
#[verifier::external_body]
fn uuid_new_v4() -> (r: u128)
    ensures
        random_uuid(r),
{
    uuid::Uuid::new_v4().as_u128()
}

/// `Uuid` of the `uuid` crate as text, by its `Display`: the hyphenated form
/// in lower case.
#[verifier::external_body]
fn uuid_display(bits: u128) -> (r: String)
    ensures
        r@ == uuid_text(bits),
{
    uuid::Uuid::from_u128(bits).to_string()
}

impl Uuid {
    /// The UUID of 128 zero bits.
    pub fn nil() -> (r: Self)
        ensures
            r.bits == 0,
    {
        Uuid { bits: 0 }
    }

    /// A fresh random UUID.
    pub fn new_v4() -> (r: Self)
        ensures
            random_uuid(r.bits),
    {
        Uuid { bits: uuid_new_v4() }
    }

    /// The UUID as text.
    pub fn to_text(&self) -> (r: String)
        ensures
            r@ == uuid_text(self.bits),
    {
        uuid_display(self.bits)
    }
}

proof fn lemma_hex_digits(n: nat, width: nat)
    ensures
        hex_digits(n, width).len() == width,
        forall|i: int|
            0 <= i < width ==> ('0' <= #[trigger] hex_digits(n, width)[i] <= '9' || 'a'
                <= hex_digits(n, width)[i] <= 'f'),
    decreases width,
{
    if width > 0 {
        lemma_hex_digits(n / 16, (width - 1) as nat);
        let p = hex_digits(n / 16, (width - 1) as nat);
        assert forall|i: int| 0 <= i < width implies ('0' <= #[trigger] hex_digits(n, width)[i]
            <= '9' || 'a' <= hex_digits(n, width)[i] <= 'f') by {
            if i < width - 1 {
                assert(hex_digits(n, width)[i] == p[i]);
            }
        }
    }
}

/// How many numbers `width` hexadecimal digits can write.
spec fn hex_range(width: nat) -> nat
    decreases width,
{
    if width == 0 {
        1
    } else {
        16 * hex_range((width - 1) as nat)
    }
}

proof fn lemma_hex_digits_injective(a: nat, b: nat, width: nat)
    requires
        a < hex_range(width),
        b < hex_range(width),
        hex_digits(a, width) == hex_digits(b, width),
    ensures
        a == b,
    decreases width,
{
    if width > 0 {
        assert(hex_digits(a, width).last() == hex_lower(a as int % 16));
        assert(hex_digits(b, width).last() == hex_lower(b as int % 16));
        assert(hex_digits(a, width).drop_last() == hex_digits(a / 16, (width - 1) as nat));
        assert(hex_digits(b, width).drop_last() == hex_digits(b / 16, (width - 1) as nat));
        lemma_hex_digits_injective(a / 16, b / 16, (width - 1) as nat);
    }
}

/// The text of a UUID holds hexadecimal digits and hyphens alone.
pub proof fn lemma_uuid_text_chars(bits: u128)
    ensures
        uuid_text(bits).len() == 36,
        forall|i: int|
            0 <= i < 36 ==> {
                let c = #[trigger] uuid_text(bits)[i];
                '0' <= c <= '9' || 'a' <= c <= 'f' || c == '-'
            },
{
    lemma_hex_digits(bits as nat, 32);
}

/// Different UUIDs have different texts.
pub proof fn law_uuid_text_injective(a: u128, b: u128)
    requires
        uuid_text(a) == uuid_text(b),
    ensures
        a == b,
{
    lemma_hex_digits(a as nat, 32);
    lemma_hex_digits(b as nat, 32);
    let ha = hex_digits(a as nat, 32);
    let hb = hex_digits(b as nat, 32);
    let ta = uuid_text(a);
    let tb = uuid_text(b);
    assert(ta.subrange(0, 8) == ha.subrange(0, 8));
    assert(tb.subrange(0, 8) == hb.subrange(0, 8));
    assert forall|i: int| 0 <= i < 32 implies ha[i] == hb[i] by {
        let j = if i < 8 {
            i
        } else if i < 12 {
            i + 1
        } else if i < 16 {
            i + 2
        } else if i < 20 {
            i + 3
        } else {
            i + 4
        };
        assert(ta[j] == ha[i]);
        assert(tb[j] == hb[i]);
    }
    assert(ha == hb);
    reveal_with_fuel(hex_range, 33);
    assert(hex_range(32) == 0x1_0000_0000_0000_0000_0000_0000_0000_0000);
    lemma_hex_digits_injective(a as nat, b as nat, 32);
}

/// A random UUID says so in its bits: version 4 in the four bits of the version,
/// and the variant of the standard in the two bits of the variant.
pub proof fn law_random_uuid_is_marked(bits: u128)
    ensures
        random_uuid(bits) <==> (bits >> 76) & 0xF == 4 && (bits >> 62) & 0x3 == 2,
{
    assert(bits & 0xF000_0000_0000_0000_0000u128 == 0x4000_0000_0000_0000_0000u128 <==> (bits >> 76)
        & 0xF == 4) by (bit_vector);
    assert(bits & 0xC000_0000_0000_0000u128 == 0x8000_0000_0000_0000u128 <==> (bits >> 62) & 0x3
        == 2) by (bit_vector);
}

} // verus!
