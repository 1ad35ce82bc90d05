use vstd::prelude::*;
use uuid::Uuid;
use crate::text::hex_spec;

verus! {

/// The sixteen bytes of an identifier, most significant first.
pub open spec fn id_bytes(id: u128) -> Seq<u8> {
    Seq::new(16, |k: int| ((id >> ((15 - k) * 8) as u128) & 0xff) as u8)
}

/// The hyphenated lower-case form of an identifier, as
/// `xxxxxxxx-xxxx-xxxx-xxxx-xxxxxxxxxxxx`.
pub open spec fn hyphenated(id: u128) -> Seq<char> {
    let b = id_bytes(id);
    hex_spec(b.subrange(0, 4)) + seq!['-'] + hex_spec(b.subrange(4, 6)) + seq!['-'] + hex_spec(
        b.subrange(6, 8),
    ) + seq!['-'] + hex_spec(b.subrange(8, 10)) + seq!['-'] + hex_spec(b.subrange(10, 16))
}

/// The identifier that `Uuid::parse_str` reads from a text, if it reads one.
pub uninterp spec fn parsed_uuid(text: Seq<char>) -> Option<u128>;

/// `Uuid::new_v4`: a random identifier whose version nibble is 4 and whose
/// variant bits are `10`, as the crate's source sets them.
#[verifier::external_body]
pub(crate) fn new_random_id() -> (id: u128)
    ensures
        id & 0xF000_C000_0000_0000_0000 == 0x4000_8000_0000_0000_0000,
{
    Uuid::new_v4().as_u128()
}

/// `Uuid::to_string`: the hyphenated lower-case form of an identifier.
#[verifier::external_body]
pub(crate) fn format_id(id: u128) -> (text: String)
    ensures
        text@ == hyphenated(id),
{
    Uuid::from_u128(id).to_string()
}

/// `Uuid::parse_str`: the identifier written in `text`, in any of the forms
/// that the crate documents (its own hyphenated output among them), or `None`
/// when the text is not one.
#[verifier::external_body]
pub(crate) fn parse_id_text(text: &str) -> (r: Option<u128>)
    ensures
        r == parsed_uuid(text@),
        forall|id: u128| text@ == hyphenated(id) ==> r == Some(id),
{
    match Uuid::parse_str(text) {
        Ok(id) => Some(id.as_u128()),
        Err(_) => None,
    }
}

/// The text of an identifier: its hyphenated lower-case form.
pub fn identifier_text(id: u128) -> (text: String)
    ensures
        text@ == hyphenated(id),
{
    format_id(id)
}

/// The identifier written in a text, if the text is one; the hyphenated form
/// of an identifier reads back as that identifier.
pub fn identifier_from_text(text: &str) -> (r: Option<u128>)
    ensures
        r == parsed_uuid(text@),
        forall|id: u128| text@ == hyphenated(id) ==> r == Some(id),
{
    parse_id_text(text)
}

} // verus!
