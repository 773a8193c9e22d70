//! The obfuscation gate's payload codec: the site compresses hidden
//! markup and token streams with an LZ-style string compressor whose
//! output decompresses to UTF-16 code units.

use vstd::prelude::*;

verus! {

/// The UTF-16 code-unit sequence the LZ decompressor yields for `s`,
/// or `None` where `s` is not a well-formed compressed payload. The
/// result depends on the characters of `s` alone.
pub uninterp spec fn lz_decompress_of(s: Seq<char>) -> Option<Seq<u16>>;

/// The text decoded from the UTF-16 code units `u`, or `None` where
/// `u` is not valid UTF-16. The result depends on `u` alone.
pub uninterp spec fn utf16_text_of(u: Seq<u16>) -> Option<Seq<char>>;

/// Relies on `lz_str::decompress_from_base64`: reverses the matching
/// compressor's base64 output into UTF-16 code units and returns `None`
/// on malformed input.
#[verifier::external_body]
pub(crate) fn lz_decompress_from_base64(s: &str) -> (r: Option<Vec<u16>>)
    ensures
        (lz_decompress_of(s@) is Some) == (r is Some),
        r matches Some(v) ==> lz_decompress_of(s@) == Some(v@),
{
    lz_str::decompress_from_base64(s)
}

/// Relies on `String::from_utf16`, which the standard library documents
/// as decoding a UTF-16 code-unit slice, erring on invalid data.
#[verifier::external_body]
pub(crate) fn utf16_to_string(u: &Vec<u16>) -> (r: Option<String>)
    ensures
        (utf16_text_of(u@) is Some) == (r is Some),
        r matches Some(s) ==> utf16_text_of(u@) == Some(s@),
{
    String::from_utf16(u.as_slice()).ok()
}

/// What an encoded payload decodes to: decompress, then read the code
/// units as UTF-16 text.
pub open spec fn spec_decoded_payload(s: Seq<char>) -> Option<Seq<char>> {
    match lz_decompress_of(s) {
        None => None,
        Some(u) => utf16_text_of(u),
    }
}

/// Decompresses an encoded payload and decodes it as text.
pub fn decode_payload(s: &str) -> (r: Option<String>)
    ensures
        (spec_decoded_payload(s@) is Some) == (r is Some),
        r matches Some(d) ==> spec_decoded_payload(s@) == Some(d@),
{
    match lz_decompress_from_base64(s) {
        None => None,
        Some(units) => utf16_to_string(&units),
    }
}

/// The replacement markup hidden behind the warning gate: the decoded
/// payload, where decoding succeeds and yields non-empty markup.
pub open spec fn spec_hidden_markup(s: Seq<char>) -> Option<Seq<char>> {
    match spec_decoded_payload(s) {
        None => None,
        Some(d) => if d.len() > 0 {
            Some(d)
        } else {
            None
        },
    }
}

/// Decodes a warning-gate payload into the markup that supersedes the
/// suppressed chapter list. A payload that does not decompress, is not
/// valid UTF-16, or decodes to nothing gives `None`, and such a page
/// is then read unchanged.
pub fn decode_hidden_markup(s: &str) -> (r: Option<String>)
    ensures
        (spec_hidden_markup(s@) is Some) == (r is Some),
        r matches Some(d) ==> spec_hidden_markup(s@) == Some(d@),
{
    match decode_payload(s) {
        None => None,
        Some(d) => {
            if d.as_str().is_empty() {
                None
            } else {
                Some(d)
            }
        },
    }
}

} // verus!
