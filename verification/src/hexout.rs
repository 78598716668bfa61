//! Hexadecimal presentation of proof buffers.

use vstd::prelude::*;

verus! {

/// The lowercase hexadecimal digit character for a value below sixteen.
pub open spec fn hex_digit_char(n: int) -> char
    recommends
        0 <= n < 16,
{
    if n == 0 {
        '0'
    } else if n == 1 {
        '1'
    } else if n == 2 {
        '2'
    } else if n == 3 {
        '3'
    } else if n == 4 {
        '4'
    } else if n == 5 {
        '5'
    } else if n == 6 {
        '6'
    } else if n == 7 {
        '7'
    } else if n == 8 {
        '8'
    } else if n == 9 {
        '9'
    } else if n == 10 {
        'a'
    } else if n == 11 {
        'b'
    } else if n == 12 {
        'c'
    } else if n == 13 {
        'd'
    } else if n == 14 {
        'e'
    } else {
        'f'
    }
}

/// Hexadecimal text of a byte sequence: each byte becomes two lowercase
/// digits, high nibble first.
pub open spec fn hex_of(bytes: Seq<u8>) -> Seq<char>
    decreases bytes.len(),
{
    if bytes.len() == 0 {
        Seq::<char>::empty()
    } else {
        seq![
            hex_digit_char(bytes[0] as int / 16),
            hex_digit_char(bytes[0] as int % 16),
        ] + hex_of(bytes.skip(1))
    }
}

/// The hexadecimal text of a byte sequence is exactly twice as long as the
/// sequence itself.
pub proof fn lemma_hex_of_len(bytes: Seq<u8>)
    ensures
        hex_of(bytes).len() == 2 * bytes.len(),
    decreases bytes.len(),
{
    if bytes.len() > 0 {
        lemma_hex_of_len(bytes.skip(1));
    }
}

/// Relies on hex::encode: every byte of the input is rendered as two
/// lowercase hexadecimal digits, high nibble first.
#[verifier::external_body]
fn hex_encode(bytes: &Vec<u8>) -> (r: String)
    ensures
        r@ == hex_of(bytes@),
{
    hex::encode(bytes.as_slice())
}

/// Renders a buffer as lowercase hexadecimal text for presentation.
pub fn to_hex_text(bytes: &Vec<u8>) -> (r: String)
    ensures
        r@ == hex_of(bytes@),
        r@.len() == 2 * bytes@.len(),
{
    proof {
        lemma_hex_of_len(bytes@);
    }
    hex_encode(bytes)
}

} // verus!
