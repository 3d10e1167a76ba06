//! Identifiers of organizations, projects and collections.

use vstd::arithmetic::power::pow;
use vstd::prelude::*;

verus! {

/// A UUID, held as its 128 bits: the most significant byte is the first byte
/// of the UUID.
#[derive(Debug, Clone, Copy, PartialEq, Eq, Structural)]
pub struct Id {
    pub bits: u128,
}

/// The character of a hexadecimal digit, in lower case.
pub open spec fn hex_digit(n: int) -> char {
    seq!['0', '1', '2', '3', '4', '5', '6', '7', '8', '9', 'a', 'b', 'c', 'd', 'e', 'f'][n]
}

/// The hexadecimal digit of `bits` at a place, where place 0 is that of the
/// most significant digit and place 31 that of the least.
pub open spec fn nibble(bits: u128, place: int) -> int {
    (bits as int / pow(16, (31 - place) as nat)) % 16
}

/// The number of hyphens before a position of the hyphenated form.
pub open spec fn hyphens_before(i: int) -> int {
    if i > 23 {
        4
    } else if i > 18 {
        3
    } else if i > 13 {
        2
    } else if i > 8 {
        1
    } else {
        0
    }
}

/// The hyphenated form of the UUID with these bits: its 32 hexadecimal
/// digits in lower case, in groups of 8, 4, 4, 4 and 12 with a hyphen between
/// two groups, as in `936da01f-9abd-4d9d-80c7-02af85c822a8`.
pub open spec fn uuid_text(bits: u128) -> Seq<char> {
    Seq::new(
        36,
        |i: int|
            if i == 8 || i == 13 || i == 18 || i == 23 {
                '-'
            } else {
                hex_digit(nibble(bits, i - hyphens_before(i)))
            },
    )
}

/// The bits of the UUID that `uuid` reads from a text, where it reads one.
pub uninterp spec fn uuid_of_text(text: Seq<char>) -> Option<u128>;

/// `uuid::Uuid::from_u128` followed by `to_string`, which goes through
/// `Display` and writes the hyphenated form in lower case.
#[verifier::external_body]
fn uuid_to_string(bits: u128) -> (r: String)
    ensures
        r@ == uuid_text(bits),
{
    uuid::Uuid::from_u128(bits).to_string()
}

/// `uuid::Uuid::parse_str`, with the UUID handed back as its bits
/// (`as_u128`): the result depends on the text alone.
#[verifier::external_body]
fn uuid_parse_str(text: &str) -> (r: Option<u128>)
    ensures
        r == uuid_of_text(text@),
{
    match uuid::Uuid::parse_str(text) {
        Ok(id) => Some(id.as_u128()),
        Err(_) => None,
    }
}

impl Id {
    /// The identifier that a text holds, if it holds one.
    pub open spec fn of_text(text: Seq<char>) -> Option<Id> {
        match uuid_of_text(text) {
            Some(bits) => Some(Id { bits }),
            None => None,
        }
    }

    /// Writes the identifier out.
    pub fn to_text(&self) -> (r: String)
        ensures
            r@ == uuid_text(self.bits),
    {
        uuid_to_string(self.bits)
    }

    /// Reads an identifier.
    pub fn parse(text: &str) -> (r: Option<Id>)
        ensures
            r == Id::of_text(text@),
    {
        match uuid_parse_str(text) {
            Some(bits) => Some(Id { bits }),
            None => None,
        }
    }
}

/// The user on whose behalf a request is made, where the request names one.
#[derive(Debug, Clone, Copy, PartialEq, Eq, Structural)]
pub struct UserID(pub Option<Id>);

impl UserID {
    /// The user that the header of a request names: none where there is no
    /// header, and no answer where the header holds no identifier.
    pub open spec fn of_header(value: Option<&str>) -> Result<UserID, ()> {
        match value {
            None => Ok(UserID(None)),
            Some(text) => match Id::of_text(text@) {
                Some(id) => Ok(UserID(Some(id))),
                None => Err(()),
            },
        }
    }

    /// Reads the user from the header of a request.
    pub fn from_header(value: Option<&str>) -> (r: Result<UserID, ()>)
        ensures
            r == UserID::of_header(value),
    {
        match value {
            None => Ok(UserID(None)),
            Some(text) => match Id::parse(text) {
                Some(id) => Ok(UserID(Some(id))),
                None => Err(()),
            },
        }
    }
}

} // verus!
