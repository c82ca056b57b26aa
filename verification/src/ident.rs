//! Identifiers of clients and rooms.
//!
//! An identifier is a UUID, held as the 128-bit number that its bytes spell
//! in big-endian order. The `uuid` crate draws fresh ones and converts
//! between the number and its text on the wire; the contracts of the three
//! functions below are assumed, not proved.
use vstd::prelude::*;

verus! {

/// The text that `Uuid` displays for the identifier with this number: its
/// hyphenated form, in lower case.
pub uninterp spec fn id_text(id: u128) -> Seq<char>;

/// The identifier that `Uuid::from_str` reads from a text, or `None` where it
/// reports an error.
pub uninterp spec fn parsed_id(text: Seq<char>) -> Option<u128>;

/// Whether a number is an identifier of the random kind: its version is 4
/// and its variant is that of the RFC. The version is the thirteenth of its
/// 32 hexadecimal digits, the variant the two highest bits of the
/// seventeenth.
pub open spec fn is_random(id: u128) -> bool {
    id & 0xF000_C000_0000_0000_0000u128 == 0x4000_8000_0000_0000_0000u128
}

/// `Uuid::new_v4`: a random identifier. Of the number only its version and
/// variant are known, which `new_v4` sets on whatever it has drawn.
#[verifier::external_body]
pub(crate) fn fresh() -> (r: u128)
    ensures
        is_random(r),
{
    uuid::Uuid::new_v4().as_u128()
}

/// Whether the text of an identifier reads back as that identifier.
pub open spec fn reads_back(id: u128) -> bool {
    parsed_id(id_text(id)) == Some(id)
}

/// `Uuid::to_string`: the text of an identifier. The text is the hyphenated
/// form, which `Uuid::from_str` reads back as the same identifier.
#[verifier::external_body]
pub(crate) fn text(id: u128) -> (r: String)
    ensures
        r@ == id_text(id),
        parsed_id(r@) == Some(id),
{
    uuid::Uuid::from_u128(id).to_string()
}

/// `Uuid::from_str`: the identifier that a text stands for, `None` where the
/// text is not a UUID.
#[verifier::external_body]
pub(crate) fn parse(text: &str) -> (r: Option<u128>)
    ensures
        r == parsed_id(text@),
{
    match <uuid::Uuid as std::str::FromStr>::from_str(text) {
        Ok(id) => Some(id.as_u128()),
        Err(_) => None,
    }
}

} // verus!
