//! Text: UTF-8 validity of bytes, strings from bytes, formatted fields.

use vstd::prelude::*;

verus! {

/// Whether `bytes` are well-formed UTF-8. The body calls
/// `core::str::from_utf8`, which succeeds exactly on well-formed UTF-8; the
/// contract states that over vstd's definition of well-formed UTF-8 and is
/// taken on trust.
#[verifier::external_body]
pub(crate) fn is_utf8(bytes: &[u8]) -> (r: bool)
    ensures
        r == vstd::utf8::valid_utf8(bytes@),
{
    core::str::from_utf8(bytes).is_ok()
}

/// The string that `bytes` spell, where they are well-formed UTF-8. The body
/// calls `String::from_utf8`, which succeeds exactly on well-formed UTF-8 and
/// then keeps the bytes as the string's contents; the contract states that
/// over vstd's definitions and is taken on trust.
#[verifier::external_body]
pub(crate) fn string_from_utf8(bytes: Vec<u8>) -> (r: Option<String>)
    ensures
        r is Some <==> vstd::utf8::valid_utf8(bytes@),
        r matches Some(s) ==> s@ == vstd::utf8::decode_utf8(bytes@),
{
    String::from_utf8(bytes).ok()
}

/// One header field as text. The body calls `format!`, which writes each
/// string as it is between the literal pieces; the contract is taken on
/// trust.
#[verifier::external_body]
pub(crate) fn format_field(key: &str, value: &str) -> (r: String)
    ensures
        r@ == key@ + seq![':', ' '] + value@ + seq!['\r', '\n'],
{
    format!("{key}: {value}\r\n")
}

} // verus!
