//! Lowercase hexadecimal text of byte strings.
use rustc_serialize::hex::ToHex;
use vstd::prelude::*;

verus! {

/// The sixteen digits, in order of their value.
pub open spec fn hex_digits() -> Seq<char> {
    seq!['0', '1', '2', '3', '4', '5', '6', '7', '8', '9', 'a', 'b', 'c', 'd', 'e', 'f']
}

/// The digit that stands for `nibble`, for `0 <= nibble < 16`.
pub open spec fn hex_digit(nibble: int) -> char {
    hex_digits()[nibble]
}

/// Whether `c` is one of the sixteen lowercase hexadecimal digits.
pub open spec fn is_hex_digit(c: char) -> bool {
    hex_digits().contains(c)
}

/// Whether every character of `text` is a lowercase hexadecimal digit.
pub open spec fn is_hex_text(text: Seq<char>) -> bool {
    forall|i: int| 0 <= i < text.len() ==> is_hex_digit(#[trigger] text[i])
}

/// The nibble of `bytes` that the digit at position `i` of its text stands for:
/// the high half of a byte comes first.
pub open spec fn nibble_at(bytes: Seq<u8>, i: int) -> int {
    if i % 2 == 0 {
        bytes[i / 2] as int / 16
    } else {
        bytes[i / 2] as int % 16
    }
}

/// The hexadecimal text of `bytes`: two lowercase digits for each byte.
pub open spec fn hex(bytes: Seq<u8>) -> Seq<char> {
    Seq::new((2 * bytes.len()) as nat, |i: int| hex_digit(nibble_at(bytes, i)))
}

/// Distinct nibbles have distinct digits.
pub proof fn lemma_hex_digit_injective(a: int, b: int)
    requires
        0 <= a < 16,
        0 <= b < 16,
        hex_digit(a) == hex_digit(b),
    ensures
        a == b,
{
    let d = hex_digits();
    assert(d[0] == '0' && d[1] == '1' && d[2] == '2' && d[3] == '3');
    assert(d[4] == '4' && d[5] == '5' && d[6] == '6' && d[7] == '7');
    assert(d[8] == '8' && d[9] == '9' && d[10] == 'a' && d[11] == 'b');
    assert(d[12] == 'c' && d[13] == 'd' && d[14] == 'e' && d[15] == 'f');
}

/// Hexadecimal text consists of hexadecimal digits, two for each byte.
pub proof fn lemma_hex_is_hex_text(bytes: Seq<u8>)
    ensures
        hex(bytes).len() == 2 * bytes.len(),
        is_hex_text(hex(bytes)),
{
    assert forall|i: int| 0 <= i < hex(bytes).len() implies is_hex_digit(
        #[trigger] hex(bytes)[i],
    ) by {
        let n = nibble_at(bytes, i);
        assert(0 <= i / 2 < bytes.len());
        assert(0 <= n < 16);
        assert(hex_digits()[n] == hex(bytes)[i]);
    }
}

/// A hexadecimal digit is neither the NUL character, nor a path separator, nor a sign.
pub proof fn lemma_hex_digit_is_plain(c: char)
    requires
        is_hex_digit(c),
    ensures
        c != '\0',
        c != '/',
        c != '.',
        c != '-',
{
    let d = hex_digits();
    let i = choose|i: int| 0 <= i < d.len() && d[i] == c;
    assert(0 <= i < 16 && d[i] == c);
}

/// The text determines the bytes: no two byte strings share their text.
pub proof fn lemma_hex_injective(a: Seq<u8>, b: Seq<u8>)
    requires
        hex(a) == hex(b),
    ensures
        a == b,
{
    assert(hex(a).len() == 2 * a.len());
    assert(hex(b).len() == 2 * b.len());
    assert(a.len() == b.len());
    assert forall|k: int| 0 <= k < a.len() implies a[k] == b[k] by {
        let hi = 2 * k;
        let lo = 2 * k + 1;
        assert(hi / 2 == k && hi % 2 == 0);
        assert(lo / 2 == k && lo % 2 == 1);
        assert(hex(a)[hi] == hex_digit(nibble_at(a, hi)));
        assert(hex(b)[hi] == hex_digit(nibble_at(b, hi)));
        assert(hex(a)[lo] == hex_digit(nibble_at(a, lo)));
        assert(hex(b)[lo] == hex_digit(nibble_at(b, lo)));
        lemma_hex_digit_injective(a[k] as int / 16, b[k] as int / 16);
        lemma_hex_digit_injective(a[k] as int % 16, b[k] as int % 16);
    }
    assert(a =~= b);
}

/// The lowercase hexadecimal text of `bytes`, as `ToHex::to_hex` of
/// `rustc_serialize` gives it for a byte slice: for each byte in turn the digit
/// of its high half, then the digit of its low half.
#[verifier::external_body]
pub(crate) fn to_hex(bytes: &[u8]) -> (text: String)
    ensures
        text@ == hex(bytes@),
{
    bytes.to_hex()
}

} // verus!
