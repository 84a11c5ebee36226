//! Text as the file stores it: the encodings a database may declare, and the
//! decoding of UTF-8.

use vstd::prelude::*;
use vstd::string::StringSliceAdditionalSpecFns;
use vstd::utf8::{decode_utf8, encode_utf8, valid_utf8};
use vstd::utf8::encode_utf8_decode_utf8;
use crate::error::FormatError;

verus! {

/// The encoding of the text values of a database.
#[derive(Debug, Clone, Copy, PartialEq, Eq, Structural)]
pub enum TextEncoding {
    Utf8,
    Utf16le,
    Utf16be,
}

/// The encoding that the number `value` stands for in the database header.
pub open spec fn text_encoding_of(value: u32) -> Result<TextEncoding, FormatError> {
    if value == 1 {
        Ok(TextEncoding::Utf8)
    } else if value == 2 {
        Ok(TextEncoding::Utf16le)
    } else if value == 3 {
        Ok(TextEncoding::Utf16be)
    } else {
        Err(FormatError::UnknownTextEncoding)
    }
}

impl TextEncoding {
    /// The encoding that the number `value` stands for in the database header:
    /// 1, 2 and 3 are the only legal values.
    pub fn try_from(value: u32) -> (r: Result<TextEncoding, FormatError>)
        ensures
            r == text_encoding_of(value),
    {
        match value {
            1 => Ok(TextEncoding::Utf8),
            2 => Ok(TextEncoding::Utf16le),
            3 => Ok(TextEncoding::Utf16be),
            _ => Err(FormatError::UnknownTextEncoding),
        }
    }
}

/// `core::str::from_utf8`: the call succeeds exactly on well-formed UTF-8, and
/// the string slice it then returns has the bytes it was given.
#[verifier::external_body]
fn str_from_utf8(bytes: &[u8]) -> (r: Option<&str>)
    ensures
        r is Some <==> valid_utf8(bytes@),
        r matches Some(t) ==> t.spec_bytes() == bytes@,
{
    core::str::from_utf8(bytes).ok()
}

/// Decodes `bytes` as UTF-8 into an owned string, or returns `None` where they
/// are not well-formed UTF-8.
pub fn decode_text(bytes: &[u8]) -> (r: Option<String>)
    ensures
        r is Some <==> valid_utf8(bytes@),
        r matches Some(t) ==> t@ == decode_utf8(bytes@),
{
    match str_from_utf8(bytes) {
        Some(t) => {
            proof {
                encode_utf8_decode_utf8(t@);
            }
            Some(t.to_owned())
        },
        None => None,
    }
}

/// Whether two string slices hold the same text.
pub fn same_text(a: &str, b: &str) -> (r: bool)
    ensures
        r == (a@ == b@),
{
    let x = a.as_bytes();
    let y = b.as_bytes();
    proof {
        encode_utf8_decode_utf8(a@);
        encode_utf8_decode_utf8(b@);
    }
    if x.len() != y.len() {
        return false;
    }
    let mut i: usize = 0;
    while i < x.len()
        invariant
            i <= x@.len(),
            x@.len() == y@.len(),
            x@ == encode_utf8(a@),
            y@ == encode_utf8(b@),
            decode_utf8(encode_utf8(a@)) == a@,
            decode_utf8(encode_utf8(b@)) == b@,
            forall|j: int| 0 <= j < i ==> x@[j] == y@[j],
        decreases x@.len() - i,
    {
        if x[i] != y[i] {
            return false;
        }
        i += 1;
    }
    assert(x@ =~= y@);
    true
}

} // verus!
