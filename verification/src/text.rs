//! Section names as text.

use vstd::prelude::*;
use vstd::string::StringExecFns;
use vstd::utf8::{encode_utf8, valid_utf8};
use crate::pe::IMAGE_SECTION_HEADER;

verus! {

/// What stands for a section name that is not text.
pub const BAD_NAME: &'static str = "BADNAME!";

/// Calls `core::str::from_utf8` and copies the text it gives. The standard
/// library documents that the call succeeds exactly on valid UTF-8 and that
/// the text it gives is made of the very bytes handed in; nothing more is
/// claimed here, and none of it is proved.
#[verifier::external_body]
fn utf8_text(bytes: &[u8]) -> (r: Option<String>)
    ensures
        r is Some <==> valid_utf8(bytes@),
        r matches Some(text) ==> encode_utf8(text@) == bytes@,
{
    match core::str::from_utf8(bytes) {
        Ok(text) => Some(text.to_string()),
        Err(_) => None,
    }
}

/// The name of a section as text is the text whose UTF-8 encoding its eight
/// bytes are, zero bytes included; a name that is no UTF-8 has the text
/// `BAD_NAME`.
pub open spec fn is_name_text(name: Seq<u8>, text: Seq<char>) -> bool {
    if valid_utf8(name) {
        encode_utf8(text) == name
    } else {
        text == BAD_NAME@
    }
}

/// The name of the section as text.
pub fn section_name_text(section: &IMAGE_SECTION_HEADER) -> (r: String)
    ensures
        is_name_text(section.Name@, r@),
{
    match utf8_text(section.Name.as_slice()) {
        Some(text) => text,
        None => String::from_str(BAD_NAME),
    }
}

} // verus!
