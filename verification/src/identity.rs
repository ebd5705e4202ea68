//! 128-bit identifiers: fresh ones, their text form and reading it back.

use vstd::prelude::*;

verus! {

/// The version field: the thirteenth hexadecimal digit.
pub open spec fn version_of(value: u128) -> int {
    (value as int / 0x1_0000_0000_0000_0000_000) % 16
}

/// The two bits of the variant field.
pub open spec fn variant_of(value: u128) -> int {
    (value as int / 0x4000_0000_0000_0000) % 4
}

/// The lower-case hexadecimal digit of a number below sixteen.
pub open spec fn hex_digit(d: int) -> char {
    if d < 10 {
        (48 + d) as char
    } else {
        (87 + d) as char
    }
}

/// The `i`-th of the thirty-two hexadecimal digits of `value`, most
/// significant first.
pub open spec fn hex_at(value: u128, i: int) -> char {
    hex_digit((value as int / vstd::arithmetic::power::pow(16, (31 - i) as nat)) % 16)
}

/// The canonical text of an identifier: thirty-two digits in groups of
/// 8, 4, 4, 4 and 12, with hyphens between the groups.
pub open spec fn hyphenated(value: u128) -> Seq<char> {
    Seq::new(
        36,
        |i: int|
            if i == 8 || i == 13 || i == 18 || i == 23 {
                '-'
            } else if i < 8 {
                hex_at(value, i)
            } else if i < 13 {
                hex_at(value, i - 1)
            } else if i < 18 {
                hex_at(value, i - 2)
            } else if i < 23 {
                hex_at(value, i - 3)
            } else {
                hex_at(value, i - 4)
            },
    )
}

/// What `Uuid::parse_str` reads from a text: the value, or nothing where it
/// refuses the text.
pub uninterp spec fn parsed_uuid(text: Seq<char>) -> Option<u128>;

/// `Uuid::new_v4`: 122 random bits with version 4 and the RFC variant.
#[verifier::external_body]
pub(crate) fn random_id() -> (value: u128)
    ensures
        version_of(value) == 4,
        variant_of(value) == 2,
{
    uuid::Uuid::new_v4().as_u128()
}

/// `Uuid::now_v7`: a time-ordered value with version 7 and the RFC variant.
/// That later values of one process are larger relates two calls and is not
/// claimed.
#[verifier::external_body]
pub(crate) fn ordered_id() -> (value: u128)
    ensures
        version_of(value) == 7,
        variant_of(value) == 2,
{
    uuid::Uuid::now_v7().as_u128()
}

/// `Display` of a `Uuid`: the hyphenated lower-case form.
#[verifier::external_body]
pub(crate) fn id_text(value: u128) -> (text: String)
    ensures
        text@ == hyphenated(value),
{
    uuid::Uuid::from_u128(value).to_string()
}

/// `Uuid::parse_str`: what it reads is named; of every hyphenated form it
/// reads the value that the form was made from.
#[verifier::external_body]
pub(crate) fn parse_id(text: &str) -> (value: Option<u128>)
    ensures
        value == parsed_uuid(text@),
        forall|v: u128| text@ == #[trigger] hyphenated(v) ==> value == Some(v),
{
    uuid::Uuid::parse_str(text).ok().map(|id| id.as_u128())
}

} // verus!
