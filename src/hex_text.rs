//! Hexadecimal text: what a valid digit string is, the bytes it spells, and
//! the calls into the `hex` crate that convert in each direction.
use vstd::prelude::*;

verus! {

#[verifier::external_type_specification]
#[verifier::external_body]
pub struct ExFromHexError(hex::FromHexError);

/// `c` is an ASCII hexadecimal digit, in either case.
pub open spec fn is_hex_digit(c: u8) -> bool {
    (0x30 <= c <= 0x39) || (0x61 <= c <= 0x66) || (0x41 <= c <= 0x46)
}

/// The value, 0 to 15, of the hexadecimal digit `c`.
pub open spec fn hex_digit_value(c: u8) -> u8 {
    if 0x30 <= c <= 0x39 {
        (c - 0x30) as u8
    } else if 0x61 <= c <= 0x66 {
        (c - 0x61 + 10) as u8
    } else {
        (c - 0x41 + 10) as u8
    }
}

/// The lowercase ASCII digit for a nibble `n` (0 to 15).
pub open spec fn lower_hex_digit(n: u8) -> u8 {
    if n < 10 {
        (0x30 + n) as u8
    } else {
        (0x61 + n - 10) as u8
    }
}

/// `s` is an even number of hexadecimal digits.
pub open spec fn is_hex_text(s: Seq<u8>) -> bool {
    &&& s.len() % 2 == 0
    &&& forall|i: int| 0 <= i < s.len() ==> is_hex_digit(#[trigger] s[i])
}

/// The bytes that the digit pairs of `s` spell, high nibble first.
pub open spec fn hex_decoded(s: Seq<u8>) -> Seq<u8> {
    Seq::new(
        s.len() / 2,
        |i: int| (hex_digit_value(s[2 * i]) * 16 + hex_digit_value(s[2 * i + 1])) as u8,
    )
}

/// Two lowercase digits for each byte of `b`, high nibble first.
pub open spec fn hex_encoded(b: Seq<u8>) -> Seq<u8> {
    Seq::new(
        2 * b.len(),
        |i: int|
            if i % 2 == 0 {
                lower_hex_digit(b[i / 2] / 16)
            } else {
                lower_hex_digit(b[i / 2] % 16)
            },
    )
}

/// Relies on `hex::decode_to_slice`: it succeeds exactly when `src` is an even
/// number of hex digits (either case) and twice as long as `out`, and then
/// fills `out` with the bytes they spell. `out` keeps its length.
#[verifier::external_body]
pub(crate) fn decode_hex_to(src: &[u8], out: &mut [u8]) -> (r: Result<(), hex::FromHexError>)
    ensures
        final(out)@.len() == old(out)@.len(),
        r is Ok <==> (is_hex_text(src@) && src@.len() == 2 * old(out)@.len()),
        r is Ok ==> final(out)@ == hex_decoded(src@),
{
    hex::decode_to_slice(src, out)
}

/// Relies on `hex::encode_to_slice`: when `out[start..end]` is exactly twice
/// as long as `src` it is filled with two lowercase digits per byte of `src`;
/// otherwise the call fails before writing anything.
#[verifier::external_body]
pub(crate) fn encode_hex_to(src: &[u8], out: &mut [u8], start: usize, end: usize) -> (r: Result<
    (),
    hex::FromHexError,
>)
    requires
        start <= end <= old(out)@.len(),
    ensures
        r is Ok <==> end - start == 2 * src@.len(),
        r is Ok ==> final(out)@ == old(out)@.subrange(0, start as int) + hex_encoded(src@)
            + old(out)@.subrange(end as int, old(out)@.len() as int),
        r is Err ==> final(out)@ == old(out)@,
{
    hex::encode_to_slice(src, &mut out[start..end])
}

/// Decoding the lowercase digits of `b` gives `b` back.
pub proof fn lemma_hex_decode_encoded(b: Seq<u8>)
    ensures
        is_hex_text(hex_encoded(b)),
        hex_decoded(hex_encoded(b)) == b,
{
    let e = hex_encoded(b);
    assert forall|i: int| 0 <= i < e.len() implies is_hex_digit(#[trigger] e[i]) by {
        let n: u8 = if i % 2 == 0 { b[i / 2] / 16 } else { b[i / 2] % 16 };
        assert(e[i] == lower_hex_digit(n));
    }
    assert forall|i: int| 0 <= i < b.len() implies #[trigger] hex_decoded(e)[i] == b[i] by {
        assert((2 * i) / 2 == i);
        assert((2 * i + 1) / 2 == i);
        assert((2 * i) % 2 == 0);
        assert((2 * i + 1) % 2 == 1);
        let x = b[i];
        assert(e[2 * i] == lower_hex_digit(x / 16));
        assert(e[2 * i + 1] == lower_hex_digit(x % 16));
        assert(hex_digit_value(lower_hex_digit(x / 16)) == x / 16);
        assert(hex_digit_value(lower_hex_digit(x % 16)) == x % 16);
    }
    assert(hex_decoded(e) =~= b);
}

} // verus!
