//! User identifiers and their text.

use vstd::prelude::*;
use vstd::arithmetic::power::pow;
use crate::text::hex_digit;

verus! {

/// The identifier that `uuid` reads from a text, as 128 bits with the first
/// byte of the identifier on top. `None` where the text is none of the forms
/// that `uuid` takes.
pub uninterp spec fn uuid_parse(text: Seq<char>) -> Option<u128>;

/// The hexadecimal digit of `value` at place `k`, counted from the top: 0 is
/// the highest of the 32.
pub open spec fn hex_place(value: u128, k: int) -> nat
    recommends
        0 <= k < 32,
{
    ((value as int / pow(16, (31 - k) as nat)) % 16) as nat
}

/// The hyphenated text of an identifier: 32 hexadecimal digits in lower case,
/// in groups of 8, 4, 4, 4 and 12 with a hyphen between neighbours.
pub open spec fn hyphenated(value: u128) -> Seq<char> {
    Seq::new(
        36,
        |i: int|
            if i == 8 || i == 13 || i == 18 || i == 23 {
                '-'
            } else if i < 8 {
                hex_digit(hex_place(value, i))
            } else if i < 13 {
                hex_digit(hex_place(value, i - 1))
            } else if i < 18 {
                hex_digit(hex_place(value, i - 2))
            } else if i < 23 {
                hex_digit(hex_place(value, i - 3))
            } else {
                hex_digit(hex_place(value, i - 4))
            },
    )
}

/// Writes an identifier with `uuid::Uuid::from_u128` and `to_string`: the
/// hyphenated form in lower case, which `parse_str` reads back.
#[verifier::external_body]
fn uuid_write(value: u128) -> (r: String)
    ensures
        r@ == hyphenated(value),
        uuid_parse(r@) == Some(value),
{
    uuid::Uuid::from_u128(value).to_string()
}

/// Reads an identifier with `uuid::Uuid::parse_str`; the bits come from
/// `as_u128`.
#[verifier::external_body]
fn uuid_read(text: &str) -> (r: Option<u128>)
    ensures
        r == uuid_parse(text@),
{
    match uuid::Uuid::parse_str(text) {
        Ok(id) => Some(id.as_u128()),
        Err(_) => None,
    }
}

/// True of the identifiers that are drawn at random: the version digit is 4
/// and the variant digit is 8, 9, a or b.
pub open spec fn is_random_form(value: u128) -> bool {
    hex_place(value, 12) == 4 && 8 <= hex_place(value, 16) <= 11
}

/// Draws an identifier with `uuid::Uuid::new_v4`: random bits, but for the
/// version and the variant. Two draws may give the same.
#[verifier::external_body]
fn uuid_random() -> (r: u128)
    ensures
        is_random_form(r),
{
    uuid::Uuid::new_v4().as_u128()
}

/// The identifier of a stored user: 128 bits, drawn at random when the user is
/// created and never changed afterwards.
#[derive(Clone, Copy, Debug, PartialEq, Eq, Structural)]
pub struct UserId {
    pub value: u128,
}

impl UserId {
    /// The identifier with the given bits.
    pub fn from_u128(value: u128) -> (r: UserId)
        ensures
            r.value == value,
    {
        UserId { value }
    }

    /// The bits of the identifier.
    pub fn as_u128(&self) -> (r: u128)
        ensures
            r == self.value,
    {
        self.value
    }

    /// A freshly drawn identifier.
    pub fn random() -> (r: UserId)
        ensures
            is_random_form(r.value),
    {
        UserId { value: uuid_random() }
    }

    /// The text of the identifier, as it is stored and shown. Reading it
    /// gives the identifier back.
    pub fn to_text(&self) -> (r: String)
        ensures
            r@ == hyphenated(self.value),
            spec_parse_id(r@) == Some(*self),
    {
        uuid_write(self.value)
    }

    /// Reads the text of an identifier.
    pub fn parse(text: &str) -> (r: Option<UserId>)
        ensures
            r == spec_parse_id(text@),
    {
        match uuid_read(text) {
            Some(value) => Some(UserId { value }),
            None => None,
        }
    }
}

/// The identifier that a text stands for, if it stands for one.
pub open spec fn spec_parse_id(text: Seq<char>) -> Option<UserId> {
    match uuid_parse(text) {
        Some(value) => Some(UserId { value }),
        None => None,
    }
}

} // verus!
