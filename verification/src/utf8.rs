//! What is taken on trust of the standard library's UTF-8 decoder.

use vstd::prelude::*;
use vstd::utf8::{decode_utf8, valid_utf8};

verus! {

/// The error of [`core::str::from_utf8`], which nothing looks into.
#[verifier::external_type_specification]
#[verifier::external_body]
pub struct ExUtf8Error(core::str::Utf8Error);

/// Trusted of [`core::str::from_utf8`]: it succeeds on exactly the byte
/// sequences that are valid UTF-8, and the string that it then gives is made of
/// the characters which these bytes encode.
pub assume_specification[ core::str::from_utf8 ](v: &[u8]) -> (decoded: Result<
    &str,
    core::str::Utf8Error,
>)
    ensures
        decoded is Ok <==> valid_utf8(v@),
        decoded matches Ok(text) ==> text@ == decode_utf8(v@),
;

} // verus!
