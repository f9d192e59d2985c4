//! Decoding of child-process output into text.
use vstd::prelude::*;
use vstd::utf8::{decode_utf8, valid_utf8};

verus! {

/// What std's `String::from_utf8_lossy` makes of `bytes`: the text, with
/// each invalid sequence replaced by U+FFFD.
pub uninterp spec fn utf8_lossy(bytes: Seq<u8>) -> Seq<char>;

/// Calls std's `str::from_utf8`, which succeeds exactly on valid UTF-8 and
/// then yields the text the bytes encode.
#[verifier::external_body]
fn utf8_text(bytes: &[u8]) -> (r: Option<String>)
    ensures
        r is Some <==> valid_utf8(bytes@),
        r is Some ==> r->0@ == decode_utf8(bytes@),
{
    match std::str::from_utf8(bytes) {
        Ok(text) => Some(text.to_owned()),
        Err(_) => None,
    }
}

/// Calls std's `String::from_utf8_lossy`; the result is named
/// [`utf8_lossy`].
#[verifier::external_body]
fn lossy_text(bytes: &[u8]) -> (r: String)
    ensures
        r@ == utf8_lossy(bytes@),
{
    String::from_utf8_lossy(bytes).into_owned()
}

/// Text of output bytes: valid UTF-8 as is; otherwise the decoding in the
/// console's code page when one is given, else the lossy UTF-8 reading.
pub open spec fn decoded_output(bytes: Seq<u8>, code_page_text: Option<Seq<char>>) -> Seq<char> {
    if valid_utf8(bytes) {
        decode_utf8(bytes)
    } else {
        match code_page_text {
            Some(t) => t,
            None => utf8_lossy(bytes),
        }
    }
}

/// The text of an optional string.
pub open spec fn text_opt(t: Option<String>) -> Option<Seq<char>> {
    match t {
        Some(t) => Some(t@),
        None => None,
    }
}

/// Decodes output bytes; `code_page_text` is the platform's decoding of the
/// same bytes in the console code page, where the platform has one.
pub fn decode_output_text_with(bytes: &[u8], code_page_text: Option<String>) -> (r: String)
    ensures
        r@ == decoded_output(bytes@, text_opt(code_page_text)),
{
    decode_output_text_in(bytes, &code_page_text)
}

/// As [`decode_output_text_with`], with the code-page text borrowed.
pub fn decode_output_text_in(bytes: &[u8], code_page_text: &Option<String>) -> (r: String)
    ensures
        r@ == decoded_output(bytes@, text_opt(*code_page_text)),
{
    match utf8_text(bytes) {
        Some(text) => text,
        None => match code_page_text {
            Some(t) => t.clone(),
            None => lossy_text(bytes),
        },
    }
}

/// Decodes output bytes where no console code page applies: valid UTF-8 as
/// is, anything else read lossily.
pub fn decode_output_text(bytes: &[u8]) -> (r: String)
    ensures
        r@ == decoded_output(bytes@, None),
{
    decode_output_text_with(bytes, None)
}

} // verus!
