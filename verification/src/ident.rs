//! Identifiers: 128-bit UUIDs, made and printed by the `uuid` crate.

use vstd::prelude::*;

verus! {

/// The sixteen lower-case hexadecimal digits.
pub open spec fn hex_digits() -> Seq<char> {
    seq!['0', '1', '2', '3', '4', '5', '6', '7', '8', '9', 'a', 'b', 'c', 'd', 'e', 'f']
}

/// The `k`-th of the 32 hexadecimal digits of `id`, counted from the most
/// significant one.
pub open spec fn nibble(id: u128, k: int) -> int {
    (id as int / pow16(31 - k)) % 16
}

/// Sixteen to the power `n`.
pub open spec fn pow16(n: int) -> int
    decreases n,
{
    if n <= 0 {
        1
    } else {
        16 * pow16(n - 1)
    }
}

/// How many hyphens stand before position `i` of the hyphenated form.
pub open spec fn hyphens_before(i: int) -> int {
    if i < 8 {
        0
    } else if i < 13 {
        1
    } else if i < 18 {
        2
    } else if i < 23 {
        3
    } else {
        4
    }
}

/// The hyphenated lower-case form of a UUID: 36 characters, the 32 digits in
/// groups of 8, 4, 4, 4 and 12.
pub open spec fn hyphenated(id: u128) -> Seq<char> {
    Seq::new(
        36,
        |i: int|
            if i == 8 || i == 13 || i == 18 || i == 23 {
                '-'
            } else {
                hex_digits()[nibble(id, i - hyphens_before(i))]
            },
    )
}

/// Whether `id` carries the version (4) and variant (RFC 4122) bits of a
/// random UUID.
pub open spec fn is_random_uuid(id: u128) -> bool {
    id & 0x0000_0000_0000_f000_c000_0000_0000_0000 == 0x0000_0000_0000_4000_8000_0000_0000_0000
}

/// Calls `uuid::Uuid::new_v4` and `as_u128` on its result. The 122 other
/// bits are random: the contract states only the version and variant bits,
/// which `new_v4` sets by masking. Two calls may differ. `new_v4` panics
/// where the operating system gives it no random bytes.
#[verifier::external_body]
pub(crate) fn random_uuid() -> (id: u128)
    ensures
        is_random_uuid(id),
{
    uuid::Uuid::new_v4().as_u128()
}

/// The `Display` text of `uuid::Uuid::from_u128(id)`, which is the
/// hyphenated lower-case form.
#[verifier::external_body]
pub(crate) fn uuid_text(id: u128) -> (text: String)
    ensures
        text@ == hyphenated(id),
{
    format!("{}", uuid::Uuid::from_u128(id))
}

} // verus!
