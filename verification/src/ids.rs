//! Opaque identifiers of users and newsletter issues.

use vstd::prelude::*;

verus! {

/// The identifier of an authenticated user. Authentication happens elsewhere;
/// this library only carries the identifier.
#[derive(Clone, Copy, Debug, PartialEq, Eq, Structural, Hash)]
pub struct UserId(pub u128);

/// The identifier of a newsletter issue.
#[derive(Clone, Copy, Debug, PartialEq, Eq, Structural, Hash)]
pub struct IssueId(pub u128);

/// Whether a 128-bit value has the version and variant bits of a random
/// (version 4) UUID.
pub open spec fn is_random_uuid(value: u128) -> bool {
    (value >> 76u128) & 0xfu128 == 4 && (value >> 62u128) & 0x3u128 == 2
}

/// Calls `uuid::Uuid::new_v4` and packs the sixteen bytes into an integer with
/// `Uuid::as_u128`. The value is random, so two calls may differ; the contract
/// claims only the version and variant bits that `new_v4` sets on every value.
/// The call panics if the operating system cannot supply random bytes.
#[verifier::external_body]
fn random_uuid() -> (value: u128)
    ensures
        is_random_uuid(value),
{
    uuid::Uuid::new_v4().as_u128()
}

/// The lower-case hexadecimal digit for a number from 0 to 15.
pub open spec fn hex_digit(nibble: u128) -> char {
    seq![
        '0', '1', '2', '3', '4', '5', '6', '7', '8', '9', 'a', 'b', 'c', 'd', 'e', 'f',
    ][nibble as int]
}

/// The hexadecimal digit of a value at a position, where position 0 is the
/// most significant of its 32 digits.
pub open spec fn nibble_at(value: u128, position: int) -> u128 {
    (value >> ((4 * (31 - position)) as u128)) & 0xfu128
}

/// The position, among the 32 digits, of the digit that stands at a place of
/// the text other than a hyphen's.
pub open spec fn digit_position(place: int) -> int {
    if place < 8 {
        place
    } else if place < 13 {
        place - 1
    } else if place < 18 {
        place - 2
    } else if place < 23 {
        place - 3
    } else {
        place - 4
    }
}

/// The text of a UUID: its 32 lower-case hexadecimal digits, most significant
/// first, in groups of 8, 4, 4, 4 and 12 with a hyphen between the groups.
pub open spec fn uuid_text(value: u128) -> Seq<char> {
    Seq::new(
        36,
        |place: int|
            if place == 8 || place == 13 || place == 18 || place == 23 {
                '-'
            } else {
                hex_digit(nibble_at(value, digit_position(place)))
            },
    )
}

/// Builds the UUID with `uuid::Uuid::from_u128` and formats it with
/// `Uuid::hyphenated`, whose `Display` writes the text that [`uuid_text`]
/// describes.
#[verifier::external_body]
fn hyphenated(value: u128) -> (text: String)
    ensures
        text@ == uuid_text(value),
{
    uuid::Uuid::from_u128(value).hyphenated().to_string()
}

/// Draws an idempotency key for a publish form: the text of a random UUID.
pub fn fresh_idempotency_key() -> (key: String)
    ensures
        key@.len() == 36,
        exists|value: u128| is_random_uuid(value) && key@ == #[trigger] uuid_text(value),
{
    hyphenated(random_uuid())
}

impl IssueId {
    /// The identifier as the text of a UUID.
    pub fn to_text(&self) -> (text: String)
        ensures
            text@ == uuid_text(self.0),
    {
        hyphenated(self.0)
    }

    /// Draws an identifier for a new issue.
    pub fn fresh() -> (id: IssueId)
        ensures
            is_random_uuid(id.0),
    {
        IssueId(random_uuid())
    }
}

} // verus!
