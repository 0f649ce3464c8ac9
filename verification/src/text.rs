//! Bytes as text: what the standard library's UTF-8 conversions are taken
//! to do. Nothing in this file is proved; the functions are the standard
//! library's own.

use std::borrow::Cow;
use vstd::prelude::*;
use vstd::utf8::{decode_utf8, valid_utf8};

verus! {

/// The error of `core::str::from_utf8`. Nothing is said of what it holds.
#[verifier::external_type_specification]
#[verifier::external_body]
pub struct ExUtf8Error(core::str::Utf8Error);

/// The error of `String::from_utf8`. Nothing is said of what it holds.
#[verifier::external_type_specification]
#[verifier::external_body]
pub struct ExFromUtf8Error(std::string::FromUtf8Error);

/// The text that `String::from_utf8_lossy` makes of `bytes`: the text they
/// encode, with U+FFFD in place of each run that encodes nothing.
pub uninterp spec fn utf8_lossy(bytes: Seq<u8>) -> Seq<char>;

/// `core::str::from_utf8` succeeds on exactly the byte strings that are
/// valid UTF-8, and then gives the text they encode.
pub assume_specification[ core::str::from_utf8 ](v: &[u8]) -> (r: Result<
    &str,
    core::str::Utf8Error,
>)
    ensures
        r is Ok <==> valid_utf8(v@),
        r matches Ok(s) ==> s@ == decode_utf8(v@),
;

/// `String::from_utf8` succeeds on exactly the byte strings that are valid
/// UTF-8, and then gives the text they encode.
pub assume_specification[ String::from_utf8 ](vec: Vec<u8>) -> (r: Result<
    String,
    std::string::FromUtf8Error,
>)
    ensures
        r is Ok <==> valid_utf8(vec@),
        r matches Ok(s) ==> s@ == decode_utf8(vec@),
;

/// `String::from_utf8_lossy` always gives a text, a function of the bytes
/// alone; on valid UTF-8 it is the text they encode.
pub assume_specification[ String::from_utf8_lossy ](v: &[u8]) -> (r: Cow<'_, str>)
    ensures
        r@ == utf8_lossy(v@),
        valid_utf8(v@) ==> r@ == decode_utf8(v@),
;

} // verus!
