//! Text extraction: turning a file's raw bytes into bounded plain text.
//!
//! File reading and the external PDF-to-text conversion happen outside the
//! library; the extension dispatch decision, the byte-level capping and the
//! lenient decoding are here, with exact contracts.

use vstd::prelude::*;
use crate::paths::{extension_of, path_extension};
use crate::strutil::{ascii_lower, lower_chars};

verus! {

/// How a file's bytes are turned into text.
#[derive(Debug, Clone, Copy, PartialEq, Eq, Structural)]
pub enum ExtractKind {
    /// Plain text: the bytes are decoded directly.
    Text,
    /// PDF: an external converter produces the text.
    Pdf,
    /// No extension: still decoded as plain text, but marked so callers can
    /// gate on it.
    Unknown,
}

/// The outcome of extracting one file.
#[derive(Debug, Clone)]
pub struct ExtractResult {
    pub kind: ExtractKind,
    pub text: String,
    pub truncated: bool,
}

/// The extraction kind a path's extension selects.
pub open spec fn spec_detect_kind(path: Seq<char>) -> ExtractKind {
    match path_extension(path) {
        Option::None => ExtractKind::Unknown,
        Option::Some(e) => if lower_chars(e) == "pdf"@ {
            ExtractKind::Pdf
        } else {
            ExtractKind::Text
        },
    }
}

/// Classifies a path by its extension: `pdf` (case-insensitive) needs the
/// external converter, anything else is read as plain text, and a path
/// without an extension is `Unknown`.
pub fn detect_kind(path: &str) -> (r: ExtractKind)
    ensures
        r == spec_detect_kind(path@),
{
    match extension_of(path) {
        Option::None => ExtractKind::Unknown,
        Option::Some(e) => {
            let lowered = ascii_lower(e.as_str());
            if lowered.eq(&"pdf".to_owned()) {
                ExtractKind::Pdf
            } else {
                ExtractKind::Text
            }
        },
    }
}

/// Caps `bytes` at `max_bytes` bytes.
///
/// Returns the (possibly shortened) bytes together with a flag that is true
/// exactly when something was cut off.
pub fn truncate_bytes(bytes: Vec<u8>, max_bytes: u64) -> (r: (Vec<u8>, bool))
    ensures
        r.1 == (bytes@.len() > max_bytes),
        r.0@ == if bytes@.len() > max_bytes {
            bytes@.take(max_bytes as int)
        } else {
            bytes@
        },
{
    let mut bytes = bytes;
    if bytes.len() as u64 <= max_bytes {
        return (bytes, false);
    }
    bytes.truncate(max_bytes as usize);
    (bytes, true)
}

/// What lenient UTF-8 decoding turns a byte sequence into: invalid
/// sequences become replacement characters instead of failing.
pub uninterp spec fn utf8_lossy_chars(bytes: Seq<u8>) -> Seq<char>;

/// Relies on String::from_utf8_lossy: the decoding is a function of the
/// bytes alone, and no bytes decode to no characters.
#[verifier::external_body]
fn decode_utf8_lossy(bytes: &Vec<u8>) -> (r: String)
    ensures
        r@ == utf8_lossy_chars(bytes@),
        bytes@.len() == 0 ==> r@.len() == 0,
{
    String::from_utf8_lossy(bytes.as_slice()).to_string()
}

/// The decoded text of `bytes` once capped at `cap` bytes.
pub open spec fn spec_extracted_text(bytes: Seq<u8>, cap: u64) -> Seq<char> {
    if bytes.len() > cap {
        utf8_lossy_chars(bytes.take(cap as int))
    } else {
        utf8_lossy_chars(bytes)
    }
}

/// The verified core of extraction: caps the raw bytes at `max_text_bytes`,
/// then decodes them leniently. Truncation happens before decoding, so it
/// cannot itself make the decode fail.
pub fn extract_from_bytes(kind: ExtractKind, bytes: Vec<u8>, max_text_bytes: u64) -> (r:
    ExtractResult)
    ensures
        r.kind == kind,
        r.truncated == (bytes@.len() > max_text_bytes),
        r.text@ == spec_extracted_text(bytes@, max_text_bytes),
{
    let (capped, truncated) = truncate_bytes(bytes, max_text_bytes);
    let text = decode_utf8_lossy(&capped);
    ExtractResult { kind, text, truncated }
}

/// Caps extracted text for display: at most `max_preview_chars`
/// characters, with a flag that is true exactly when something was cut
/// off.
pub fn preview_text(text: &str, max_preview_chars: usize) -> (r: (String, bool))
    ensures
        r.1 == (text@.len() > max_preview_chars),
        r.0@ == if text@.len() > max_preview_chars {
            text@.take(max_preview_chars as int)
        } else {
            text@
        },
{
    let n = text.unicode_len();
    if n <= max_preview_chars {
        return (text.to_owned(), false);
    }
    let capped = text.substring_char(0, max_preview_chars).to_owned();
    proof {
        assert(text@.subrange(0, max_preview_chars as int) =~= text@.take(
            max_preview_chars as int,
        ));
    }
    (capped, true)
}

} // verus!
