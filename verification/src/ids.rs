//! Order and signal identifiers: 128-bit UUID values and their text form.
use vstd::arithmetic::power2::pow2;
use vstd::prelude::*;

verus! {

/// The lower-case hexadecimal digit of a value in `0..16`.
pub open spec fn hex_digit(d: int) -> char {
    if d < 10 {
        (48 + d) as char
    } else {
        (87 + d) as char
    }
}

/// The `k`-th of the 32 hexadecimal digits of `id`, most significant first.
pub open spec fn uuid_nibble(id: u128, k: int) -> int {
    (id as int / pow2((4 * (31 - k)) as nat) as int) % 16
}

/// Number of hyphens that precede position `i` of the hyphenated form.
pub open spec fn hyphens_before(i: int) -> int {
    if i < 8 {
        0
    } else if i < 13 {
        1
    } else if i < 18 {
        2
    } else if i < 23 {
        3
    } else {
        4
    }
}

/// The hyphenated lower-case text of a UUID given by its 128-bit value:
/// 32 hexadecimal digits in groups of 8-4-4-4-12, most significant first.
pub open spec fn uuid_text(id: u128) -> Seq<char> {
    Seq::new(
        36,
        |i: int|
            if i == 8 || i == 13 || i == 18 || i == 23 {
                '-'
            } else {
                hex_digit(uuid_nibble(id, i - hyphens_before(i)))
            },
    )
}

/// Renders the UUID whose 128-bit value is `id` with
/// `uuid::Uuid::from_u128` and its `Display` impl, which the uuid crate
/// documents and implements as the lower-case hyphenated form.
#[verifier::external_body]
pub(crate) fn uuid_string(id: u128) -> (text: String)
    ensures
        text@ == uuid_text(id),
{
    uuid::Uuid::from_u128(id).to_string()
}

/// Whether `id` is the value of a random UUID: version 4 in bits 76..80
/// and the RFC 4122 variant (binary 10) in bits 62..64.
pub open spec fn is_random_uuid(id: u128) -> bool {
    (id >> 76u128) & 15u128 == 4u128 && (id >> 62u128) & 3u128 == 2u128
}

/// Draws a fresh random UUID with `uuid::Uuid::new_v4` and returns its
/// 128-bit value. `new_v4` masks random bits so that the version nibble is 4
/// and the variant bits are 10; that is all that is stated: the other bits
/// are random.
#[verifier::external_body]
pub(crate) fn fresh_id() -> (id: u128)
    ensures
        is_random_uuid(id),
{
    uuid::Uuid::new_v4().as_u128()
}

} // verus!
