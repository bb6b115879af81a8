//! Identifiers: UUIDs, held as the number that their 128 bits write down.
use vstd::arithmetic::power::pow;
use vstd::prelude::*;

use crate::digest::hex_digit;

verus! {

/// The hexadecimal digit of `id` that stands `place` digits from the left.
pub open spec fn uuid_digit(id: u128, place: int) -> char {
    hex_digit(id as int / pow(16, (31 - place) as nat) % 16)
}

/// The hyphenated form of a UUID: groups of 8, 4, 4, 4 and 12 lower-case
/// hexadecimal digits.
pub open spec fn uuid_text(id: u128) -> Seq<char> {
    Seq::new(
        36,
        |i: int|
            if i == 8 || i == 13 || i == 18 || i == 23 {
                '-'
            } else if i < 8 {
                uuid_digit(id, i)
            } else if i < 13 {
                uuid_digit(id, i - 1)
            } else if i < 18 {
                uuid_digit(id, i - 2)
            } else if i < 23 {
                uuid_digit(id, i - 3)
            } else {
                uuid_digit(id, i - 4)
            },
    )
}

/// Whether a UUID has version 4 and the variant of RFC 9562.
pub open spec fn is_random_uuid(id: u128) -> bool {
    &&& id as int / pow(2, 76) % 16 == 4
    &&& id as int / pow(2, 62) % 4 == 2
}

/// `Uuid::from_u128` and the `Display` form of the crate uuid. Believed: the text is the
/// hyphenated form in lower case.
#[verifier::external_body]
pub(crate) fn format_uuid(id: u128) -> (res: String)
    ensures
        res@ == uuid_text(id),
{
    uuid::Uuid::from_u128(id).to_string()
}

/// `Uuid::new_v4` and `as_u128` of the crate uuid. Believed: whatever bits are drawn, the
/// version is 4 and the variant that of RFC 9562. Which UUID is drawn is left to chance.
#[verifier::external_body]
pub(crate) fn draw_uuid() -> (res: u128)
    ensures
        is_random_uuid(res),
{
    uuid::Uuid::new_v4().as_u128()
}

} // verus!
