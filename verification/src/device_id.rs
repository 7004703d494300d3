//! The identifiers of devices and their text.

use vstd::arithmetic::power::pow;
use vstd::prelude::*;

use crate::hex::hex_digit;

verus! {

/// The hexadecimal digit of an identifier at a place, the most significant
/// being at place 0 and the least at place 31.
pub open spec fn id_digit(id: u128, place: int) -> char {
    hex_digit(id as int / pow(16, (31 - place) as nat) % 16)
}

/// The text of an identifier: its 32 digits, hyphens standing behind the 8th,
/// the 12th, the 16th and the 20th.
pub open spec fn id_text(id: u128) -> Seq<char> {
    Seq::new(
        36,
        |i: int|
            if i < 8 {
                id_digit(id, i)
            } else if i == 8 || i == 13 || i == 18 || i == 23 {
                '-'
            } else if i < 13 {
                id_digit(id, i - 1)
            } else if i < 18 {
                id_digit(id, i - 2)
            } else if i < 23 {
                id_digit(id, i - 3)
            } else {
                id_digit(id, i - 4)
            },
    )
}

/// What `uuid::Uuid::parse_str` reads from a text: an identifier, or the text of
/// its error.
pub uninterp spec fn uuid_read(text: Seq<char>) -> Result<u128, Seq<char>>;

/// Whether reading the text gives this identifier.
pub open spec fn reads_as_id(text: Seq<char>, id: u128) -> bool {
    uuid_read(text) matches Ok(named) && named == id
}

/// `uuid::Uuid::from_u128` and its `Display`: lower case digits with hyphens.
/// That form is one that `uuid::Uuid::parse_str` reads, and it gives the same
/// identifier.
#[verifier::external_body]
fn written(id: u128) -> (r: String)
    ensures
        r@ == id_text(id),
        reads_as_id(r@, id),
{
    uuid::Uuid::from_u128(id).to_string()
}

/// `uuid::Uuid::parse_str`. The result is named, the error by its text.
#[verifier::external_body]
fn read(text: &str) -> (r: Result<u128, String>)
    ensures
        match (r, uuid_read(text@)) {
            (Ok(id), Ok(named)) => id == named,
            (Err(e), Err(named)) => e@ == named,
            _ => false,
        },
{
    match uuid::Uuid::parse_str(text) {
        Ok(id) => Ok(id.as_u128()),
        Err(e) => Err(e.to_string()),
    }
}

/// `uuid::Uuid::new_v4`: a random identifier. Nothing is claimed but the four
/// bits of its version and the two of its variant.
#[verifier::external_body]
fn drawn() -> (r: u128)
    ensures
        is_random_id(r),
{
    uuid::Uuid::new_v4().as_u128()
}

/// Whether the version of an identifier is 4 and its variant that of RFC 9562.
pub open spec fn is_random_id(id: u128) -> bool {
    &&& id as int / 0x1000_0000_0000_0000_0000 % 16 == 4
    &&& id as int / 0x4000_0000_0000_0000 % 4 == 2
}

/// The text of an identifier.
pub fn id_to_text(id: u128) -> (r: String)
    ensures
        r@ == id_text(id),
        reads_as_id(r@, id),
{
    written(id)
}

/// The identifier that a text stands for, or the text of the error.
pub fn text_to_id(text: &str) -> (r: Result<u128, String>)
    ensures
        match (r, uuid_read(text@)) {
            (Ok(id), Ok(named)) => id == named,
            (Err(e), Err(named)) => e@ == named,
            _ => false,
        },
{
    read(text)
}

/// An identifier for a device that brings none.
pub fn new_device_id() -> (r: u128)
    ensures
        is_random_id(r),
{
    drawn()
}

} // verus!
