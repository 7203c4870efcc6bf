//! The textual form of a digest: two lower-case hexadecimal digits per byte.

use vstd::prelude::*;

verus! {

/// The sixteen hexadecimal digits, in order of their value.
pub open spec fn hex_digits() -> Seq<char> {
    seq!['0', '1', '2', '3', '4', '5', '6', '7', '8', '9', 'a', 'b', 'c', 'd', 'e', 'f']
}

/// The character at position `i` of the hexadecimal form of `data`: the high
/// half of each byte comes first.
pub open spec fn hex_char_at(data: Seq<u8>, i: int) -> char {
    if i % 2 == 0 {
        hex_digits()[data[i / 2] as int / 16]
    } else {
        hex_digits()[data[i / 2] as int % 16]
    }
}

/// The lower-case hexadecimal form of `data`.
pub open spec fn hex_encoding(data: Seq<u8>) -> Seq<char> {
    Seq::new(2 * data.len(), |i: int| hex_char_at(data, i))
}

/// Writes `data` as lower-case hexadecimal text.
///
/// Trusted: calls `hex::encode`, which maps every byte to the two characters
/// of `0123456789abcdef` selected by its high and low four bits, in input
/// order.
#[verifier::external_body]
pub(crate) fn encode_hex(data: &Vec<u8>) -> (text: String)
    ensures
        text@ == hex_encoding(data@),
{
    hex::encode(data)
}

/// Two byte strings with the same hexadecimal form are the same byte string,
/// so comparing digests by their text compares the digests.
pub proof fn lemma_hex_encoding_injective(a: Seq<u8>, b: Seq<u8>)
    requires
        hex_encoding(a) == hex_encoding(b),
    ensures
        a == b,
{
    assert(2 * a.len() == hex_encoding(a).len());
    assert(2 * b.len() == hex_encoding(b).len());
    assert forall|k: int| 0 <= k < a.len() implies a[k] == b[k] by {
        let x = a[k] as int;
        let y = b[k] as int;
        assert(hex_encoding(a)[2 * k] == hex_digits()[x / 16]);
        assert(hex_encoding(b)[2 * k] == hex_digits()[y / 16]);
        assert(hex_encoding(a)[2 * k + 1] == hex_digits()[x % 16]);
        assert(hex_encoding(b)[2 * k + 1] == hex_digits()[y % 16]);
        lemma_hex_digits_distinct(x / 16, y / 16);
        lemma_hex_digits_distinct(x % 16, y % 16);
    }
    assert(a =~= b);
}

/// No hexadecimal digit stands for two values.
proof fn lemma_hex_digits_distinct(m: int, n: int)
    requires
        0 <= m < 16,
        0 <= n < 16,
        hex_digits()[m] == hex_digits()[n],
    ensures
        m == n,
{
}

} // verus!
