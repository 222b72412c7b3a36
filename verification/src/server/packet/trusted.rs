//! Calls into other crates, and into parts of the standard library that
//! the verifier has no contract for.
//!
//! Nothing in this file is proved. Each contract says what the function
//! called is documented to do, and every proof that uses one rests on it.

use vstd::prelude::*;
use vstd::utf8::{decode_utf8, valid_utf8};

verus! {

/// `quartz_nbt::NbtCompound`: a structured document, a tree of named tags.
/// Nothing is known of its contents.
#[verifier::external_type_specification]
#[verifier::external_body]
pub struct ExNbtCompound(quartz_nbt::NbtCompound);

/// `quartz_nbt::io::NbtIoError`: why a document could not be read or written.
#[verifier::external_type_specification]
#[verifier::external_body]
pub struct ExNbtIoError(quartz_nbt::io::NbtIoError);

/// Calls `quartz_nbt::io::write_nbt` on an empty buffer, with the
/// uncompressed flavor, and returns the buffer. The order in which the tags
/// of a compound are written is that of a hash map, so nothing is claimed of
/// the bytes. The call fails on a list whose tags differ in kind.
#[verifier::external_body]
pub(crate) fn nbt_to_bytes(nbt: &quartz_nbt::NbtCompound, name: Option<&str>) -> (r: Result<
    Vec<u8>,
    quartz_nbt::io::NbtIoError,
>) {
    let mut out: Vec<u8> = Vec::new();
    match quartz_nbt::io::write_nbt(&mut out, name, nbt, quartz_nbt::io::Flavor::Uncompressed) {
        Ok(()) => Ok(out),
        Err(e) => Err(e),
    }
}

/// The text of the JSON string literal for `text`: `text` between double
/// quotes, with the characters that JSON does not take as they are written
/// as escapes.
pub uninterp spec fn json_string_literal(text: Seq<char>) -> Seq<char>;

/// Calls `json::stringify` on a string, which gives the JSON string literal
/// for it.
#[verifier::external_body]
pub(crate) fn json_quote(text: &str) -> (quoted: String)
    ensures
        quoted@ == json_string_literal(text@),
{
    json::stringify(text)
}

/// Calls `String::from_utf8`. It succeeds exactly on valid UTF-8, and the
/// string it returns is made of the bytes it was given.
#[verifier::external_body]
pub(crate) fn string_from_utf8(bytes: Vec<u8>) -> (r: Option<String>)
    ensures
        r is Some <==> valid_utf8(bytes@),
        r matches Some(s) ==> s@ == decode_utf8(bytes@),
{
    String::from_utf8(bytes).ok()
}

} // verus!
