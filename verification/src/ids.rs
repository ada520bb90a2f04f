//! The text form of identifiers.
use vstd::prelude::*;

use crate::Uuid;

verus! {

/// The lower case hexadecimal digit for `d < 16`.
pub open spec fn hex_char(d: u128) -> char {
    if d < 10 {
        (48 + d) as char
    } else {
        (87 + d) as char
    }
}

/// The index among the 32 hexadecimal digits of the character at position
/// `i` of the hyphenated form.
pub open spec fn digit_index(i: int) -> int {
    if i < 8 {
        i
    } else if i < 13 {
        i - 1
    } else if i < 18 {
        i - 2
    } else if i < 23 {
        i - 3
    } else {
        i - 4
    }
}

/// The character at position `i < 36` of the hyphenated lower case form
/// `xxxxxxxx-xxxx-xxxx-xxxx-xxxxxxxxxxxx` of a UUID, most significant digit
/// first.
pub open spec fn uuid_char(id: Uuid, i: int) -> char {
    if i == 8 || i == 13 || i == 18 || i == 23 {
        '-'
    } else {
        hex_char((id >> ((124 - 4 * digit_index(i)) as u128)) & 15u128)
    }
}

/// The hyphenated lower case form of `id`.
pub open spec fn uuid_text(id: Uuid) -> Seq<char> {
    Seq::new(36, |i: int| uuid_char(id, i))
}

/// `uuid::Uuid::from_u128(id).to_string()`: the `Display` form of a UUID,
/// which the uuid crate documents as the hyphenated lower case form.
#[verifier::external_body]
pub(crate) fn uuid_to_string(id: Uuid) -> (s: String)
    ensures
        s@ == uuid_text(id),
{
    uuid::Uuid::from_u128(id).to_string()
}

} // verus!
