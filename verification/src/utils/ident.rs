//! User identifiers: 128-bit values, generated, parsed and printed by the
//! `uuid` crate.

use vstd::prelude::*;
use vstd::arithmetic::power::pow;

verus! {

/// The sixteen lower-case hexadecimal digits, in order.
pub open spec fn hex_digits() -> Seq<char> {
    seq![
        '0', '1', '2', '3', '4', '5', '6', '7', '8', '9', 'a', 'b', 'c', 'd', 'e', 'f',
    ]
}

/// The `k`-th hexadecimal digit of `id`, counted from the most significant
/// one (`k` from 0 to 31).
pub open spec fn hex_digit_at(id: u128, k: int) -> char {
    hex_digits()[(id as int / pow(16, (31 - k) as nat)) % 16]
}

/// The canonical text of an identifier: its 32 lower-case hexadecimal digits,
/// most significant first, in groups of 8, 4, 4, 4 and 12 separated by hyphens.
pub open spec fn id_text(id: u128) -> Seq<char> {
    Seq::new(
        36,
        |i: int|
            if i == 8 || i == 13 || i == 18 || i == 23 {
                '-'
            } else if i < 8 {
                hex_digit_at(id, i)
            } else if i < 13 {
                hex_digit_at(id, i - 1)
            } else if i < 18 {
                hex_digit_at(id, i - 2)
            } else if i < 23 {
                hex_digit_at(id, i - 3)
            } else {
                hex_digit_at(id, i - 4)
            },
    )
}

/// Whether an identifier is marked as a random one: its version is 4 and its
/// variant is the one of RFC 4122.
pub open spec fn is_random_id(id: u128) -> bool {
    id & 0x0000_0000_0000_f000_c000_0000_0000_0000 == 0x0000_0000_0000_4000_8000_0000_0000_0000
}

/// What `uuid::Uuid::parse_str` makes of a text: the identifier it denotes, as
/// a 128-bit number, or `None` when the text is not in one of the forms that
/// `uuid` accepts.
pub uninterp spec fn parsed_id(text: Seq<char>) -> Option<u128>;

/// Draws a random identifier with `uuid::Uuid::new_v4`.
///
/// Trusted: nothing is assumed about the value drawn, except that `uuid` marks
/// it as a random identifier ([`is_random_id`]). `new_v4` panics when the
/// operating system gives no random bytes.
#[verifier::external_body]
pub(crate) fn fresh_id() -> (id: u128)
    ensures
        is_random_id(id),
{
    uuid::Uuid::new_v4().as_u128()
}

/// Reads an identifier with `uuid::Uuid::parse_str`.
///
/// Trusted: the result is taken to be a function of the text alone, named
/// [`parsed_id`].
#[verifier::external_body]
pub(crate) fn parse_id(text: &str) -> (id: Option<u128>)
    ensures
        id == parsed_id(text@),
{
    match uuid::Uuid::parse_str(text) {
        Ok(id) => Some(id.as_u128()),
        Err(_) => None,
    }
}

/// Prints an identifier the way `uuid::Uuid` displays itself.
///
/// Trusted: `uuid` displays an identifier in its hyphenated lower-case form,
/// which [`id_text`] spells out.
#[verifier::external_body]
pub(crate) fn show_id(id: u128) -> (text: String)
    ensures
        text@ == id_text(id),
{
    uuid::Uuid::from_u128(id).to_string()
}

} // verus!
