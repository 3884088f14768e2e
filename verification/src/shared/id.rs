//! Account ids: 128-bit random (version 4) UUIDs, held as plain integers.

use vstd::prelude::*;

verus! {

/// Lower-case hexadecimal digit of a value below 16.
pub open spec fn hex_digit(n: u128) -> char {
    if n < 10 {
        (('0' as u32) + (n as u32)) as char
    } else {
        (('a' as u32) + (n as u32) - 10) as char
    }
}

/// The `k`-th hexadecimal digit of `id`, counting from the most significant.
pub open spec fn hex_digit_at(id: u128, k: int) -> char {
    hex_digit((id >> ((4 * (31 - k)) as u128)) & 0xf)
}

/// Whether position `i` of a hyphenated id holds a hyphen.
pub open spec fn is_hyphen_position(i: int) -> bool {
    i == 8 || i == 13 || i == 18 || i == 23
}

/// The number of hyphens before position `i` of a hyphenated id.
pub open spec fn hyphens_before(i: int) -> int {
    if i > 23 {
        4
    } else if i > 18 {
        3
    } else if i > 13 {
        2
    } else if i > 8 {
        1
    } else {
        0
    }
}

/// The hyphenated text of an id: its 32 lower-case hexadecimal digits, most
/// significant first, in groups of 8, 4, 4, 4 and 12 joined by `-`.
pub open spec fn hyphenated_spec(id: u128) -> Seq<char> {
    Seq::new(
        36,
        |i: int|
            if is_hyphen_position(i) {
                '-'
            } else {
                hex_digit_at(id, i - hyphens_before(i))
            },
    )
}

/// Whether `id` is marked as a version 4 (random) UUID of the RFC 4122
/// variant.
pub open spec fn is_v4(id: u128) -> bool {
    &&& (id >> 76u128) & 0xf == 4
    &&& (id >> 62u128) & 0x3 == 2
}

/// A new random id (`uuid::Uuid::new_v4`). The contract claims only that it
/// carries the version 4 and RFC 4122 variant marks; the other bits are random.
#[verifier::external_body]
pub fn new_id() -> (r: u128)
    ensures
        is_v4(r),
{
    uuid::Uuid::new_v4().as_u128()
}

/// The hyphenated text of an id (`uuid::Uuid::hyphenated` and `to_string`):
/// the contract claims the 36 characters of the lower-case hyphenated form.
#[verifier::external_body]
pub fn hyphenated(id: u128) -> (r: String)
    ensures
        r@ == hyphenated_spec(id),
{
    uuid::Uuid::from_u128(id).hyphenated().to_string()
}

} // verus!
