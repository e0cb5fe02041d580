//! Session identities: 128-bit values that key chats, downloads and the
//! streams opened for them.

use vstd::prelude::*;

verus! {

/// The identity of one chat or download, and of the stream session opened for it.
///
/// It holds the 128 bits of a UUID, so that two identities are equal exactly
/// when their bits are.
#[derive(Clone, Copy, Debug, PartialEq, Eq, Structural, Hash)]
pub struct SessionId {
    pub value: u128,
}

/// What `uuid::Uuid::parse_str` makes of a text: the 128 bits of the parsed
/// UUID, or `None` where the text is rejected.
pub uninterp spec fn uuid_parse(text: Seq<char>) -> Option<u128>;

/// The lower-case hexadecimal digit for a number below 16.
pub open spec fn hex_digit(nibble: int) -> char {
    if nibble < 10 {
        ((48 + nibble) as u8) as char
    } else {
        ((87 + nibble) as u8) as char
    }
}

/// The last `count` hexadecimal digits of a number, the most significant first.
pub open spec fn hex_digits(number: int, count: nat) -> Seq<char>
    decreases count,
{
    if count == 0 {
        Seq::empty()
    } else {
        hex_digits(number / 16, (count - 1) as nat).push(hex_digit(number % 16))
    }
}

/// The 128 bits written as a UUID: their 32 lower-case hexadecimal digits, the
/// most significant first, in groups of 8, 4, 4, 4 and 12 with a hyphen
/// between the groups.
pub open spec fn uuid_text(value: u128) -> Seq<char> {
    let bits: int = value as int;
    hex_digits(bits / 0x1_0000_0000_0000_0000_0000_0000, 8) + seq!['-'] + hex_digits(
        bits / 0x1_0000_0000_0000_0000_0000,
        4,
    ) + seq!['-'] + hex_digits(bits / 0x1_0000_0000_0000_0000, 4) + seq!['-'] + hex_digits(
        bits / 0x1_0000_0000_0000,
        4,
    ) + seq!['-'] + hex_digits(bits, 12)
}

/// Whether the bits are those of a random UUID: the digit that tells the
/// version, the thirteenth of the 32, is 4.
pub open spec fn is_random_uuid(value: u128) -> bool {
    value / 0x1000_0000_0000_0000_0000 % 16 == 4
}

/// Draws a random identity with `uuid::Uuid::new_v4`.
///
/// Claims of the bits drawn only that they carry the version of a random
/// UUID. The call draws from the operating system's random source and panics
/// only where that source fails.
#[verifier::external_body]
fn random_id() -> (id: SessionId)
    ensures
        is_random_uuid(id.value),
{
    SessionId { value: uuid::Uuid::new_v4().as_u128() }
}

/// Parses a UUID with `uuid::Uuid::parse_str` and hands out its bits
/// (`Uuid::as_u128`), or `None` where the parser reports an error.
///
/// Claims that the outcome depends on the text alone: it is `uuid_parse` of it.
#[verifier::external_body]
fn parse_id(text: &str) -> (r: Option<SessionId>)
    ensures
        match r {
            Some(id) => uuid_parse(text@) == Some(id.value),
            None => uuid_parse(text@) is None,
        },
{
    match uuid::Uuid::parse_str(text) {
        Ok(uuid) => Some(SessionId { value: uuid.as_u128() }),
        Err(_) => None,
    }
}

/// Writes the bits as a UUID (`Uuid::from_u128`) in its displayed form
/// (`to_string`).
///
/// Claims that `uuid::Uuid` displays itself hyphenated and in lower case: the
/// text is `uuid_text` of the bits.
#[verifier::external_body]
fn display_id(id: SessionId) -> (text: String)
    ensures
        text@ == uuid_text(id.value),
{
    uuid::Uuid::from_u128(id.value).to_string()
}

impl SessionId {
    /// The identity with the given bits.
    pub fn from_u128(value: u128) -> (id: SessionId)
        ensures
            id.value == value,
    {
        SessionId { value }
    }

    /// The nil identity, whose bits are all zero. It stands for "no chat".
    pub fn nil() -> (id: SessionId)
        ensures
            id.value == 0,
    {
        SessionId { value: 0 }
    }

    /// A fresh random identity. It is never the nil identity.
    pub fn random() -> (id: SessionId)
        ensures
            is_random_uuid(id.value),
            id.value != 0,
    {
        random_id()
    }

    /// The identity that a text spells, or `None` where the text is no UUID.
    pub fn parse(text: &str) -> (r: Option<SessionId>)
        ensures
            r is Some <==> uuid_parse(text@) is Some,
            r matches Some(id) ==> uuid_parse(text@) == Some(id.value),
    {
        parse_id(text)
    }

    /// The identity as text, in the form in which transcripts store it.
    pub fn to_text(&self) -> (text: String)
        ensures
            text@ == uuid_text(self.value),
    {
        display_id(*self)
    }
}

} // verus!
