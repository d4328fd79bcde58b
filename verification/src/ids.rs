//! Record identifiers: fresh UUIDs and their canonical text. An identifier
//! is held as the 128-bit value of the UUID, most significant byte first.

use vstd::prelude::*;

verus! {

/// The lower-case hexadecimal digit of `d` (0..16).
pub open spec fn hex_char(d: int) -> char {
    if d < 10 {
        ((48 + d) as u32) as char
    } else {
        ((87 + d) as u32) as char
    }
}

/// The `i`-th hexadecimal digit of `x`, most significant first (0..32).
pub open spec fn nibble(x: u128, i: int) -> int {
    ((x >> ((124 - 4 * i) as u128)) & 15u128) as int
}

/// The 32 hexadecimal digits of `x`, most significant first.
pub open spec fn hex32(x: u128) -> Seq<char> {
    Seq::new(32, |i: int| hex_char(nibble(x, i)))
}

/// The hyphenated text of a UUID: 8-4-4-4-12 lower-case hexadecimal digits.
pub open spec fn uuid_hyphenated(x: u128) -> Seq<char> {
    let h = hex32(x);
    h.subrange(0, 8) + "-"@ + h.subrange(8, 12) + "-"@ + h.subrange(12, 16) + "-"@
        + h.subrange(16, 20) + "-"@ + h.subrange(20, 32)
}

/// The text of an identifier as uuid's `Display` writes it
/// (`Uuid::from_u128(x).to_string()`): the hyphenated lower-case form.
#[verifier::external_body]
pub(crate) fn uuid_string(x: u128) -> (r: String)
    ensures
        r@ == uuid_hyphenated(x),
{
    uuid::Uuid::from_u128(x).to_string()
}

/// A fresh time ordered identifier (uuid `Uuid::now_v7`). It depends on the
/// clock and on random bits, so nothing is stated of it.
#[verifier::external_body]
pub fn new_id() -> (r: u128) {
    uuid::Uuid::now_v7().as_u128()
}

} // verus!
