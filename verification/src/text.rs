//! Strict UTF-8 decoding and NUL trimming for chunk string values. The
//! decoding itself is done by the standard library behind trusted
//! wrappers; their contracts are stated over vstd's UTF-8 model.

use vstd::prelude::*;

use vstd::utf8::{decode_utf8, valid_utf8};

verus! {

/// The characters of `s` without its trailing NULs.
pub open spec fn spec_drop_trailing_nuls(s: Seq<char>) -> Seq<char>
    decreases s.len(),
{
    if s.len() > 0 && s.last() == '\0' {
        spec_drop_trailing_nuls(s.drop_last())
    } else {
        s
    }
}

/// Relies on `String::from_utf8`: `Some` exactly on valid UTF-8, holding
/// the decoded characters.
#[verifier::external_body]
pub fn utf8_to_string(b: Vec<u8>) -> (r: Option<String>)
    ensures
        r is Some <==> valid_utf8(b@),
        r matches Some(s) ==> s@ == decode_utf8(b@),
{
    String::from_utf8(b).ok()
}

/// Relies on `str::trim_end_matches`: the string with every trailing NUL
/// character removed — trailing only, leading NULs are kept.
#[verifier::external_body]
pub fn trim_trailing_nuls(s: String) -> (r: String)
    ensures
        r@ == spec_drop_trailing_nuls(s@),
{
    s.trim_end_matches('\0').to_string()
}

/// Relies on `str::from_utf8`: whether the bytes are valid UTF-8.
#[verifier::external_body]
pub fn is_valid_utf8(b: &Vec<u8>) -> (r: bool)
    ensures
        r == valid_utf8(b@),
{
    std::str::from_utf8(b).is_ok()
}

} // verus!
