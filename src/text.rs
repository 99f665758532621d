use vstd::prelude::*;

use base64::engine::general_purpose::STANDARD_NO_PAD;
use base64::Engine;

use crate::error::CodecError;

verus! {

/// The unpadded standard base64 text of a byte sequence.
pub uninterp spec fn base64_text(b: Seq<u8>) -> Seq<char>;

#[verifier::external_type_specification]
#[verifier::external_body]
pub struct ExDecodeError(base64::DecodeError);

/// Relies on `Engine::encode` of base64's `STANDARD_NO_PAD` engine: its text
/// depends on the bytes alone. It panics only where the text length would
/// overflow `usize`, which the bound excludes.
#[verifier::external_body]
fn encode_no_pad(b: &[u8]) -> (r: String)
    requires
        b@.len() <= usize::MAX / 2,
    ensures
        r@ == base64_text(b@),
{
    STANDARD_NO_PAD.encode(b)
}

/// Relies on `Engine::decode` of base64's `STANDARD_NO_PAD` engine: padding,
/// stray symbols, a final group of one symbol and nonzero trailing bits are all
/// rejected, so it accepts exactly the texts that `encode` produces, and
/// returns the bytes they were made from.
#[verifier::external_body]
fn decode_no_pad(s: &str) -> (r: Result<Vec<u8>, base64::DecodeError>)
    ensures
        forall|b: Seq<u8>| #[trigger] base64_text(b) == s@ ==> r is Ok && r->Ok_0@ == b,
        r is Ok ==> base64_text(r->Ok_0@) == s@,
{
    STANDARD_NO_PAD.decode(s)
}

/// The unpadded base64 text of `b`, without line breaks.
pub fn to_text(b: &[u8]) -> (r: String)
    requires
        b@.len() <= usize::MAX / 2,
    ensures
        r@ == base64_text(b@),
{
    encode_no_pad(b)
}

/// The bytes whose unpadded base64 text is `s`; any other string is rejected
/// as `InvalidEncoding`.
pub fn from_text(s: &str) -> (r: Result<Vec<u8>, CodecError>)
    ensures
        forall|b: Seq<u8>| #[trigger] base64_text(b) == s@ ==> r is Ok && r->Ok_0@ == b,
        r is Ok ==> base64_text(r->Ok_0@) == s@,
        r is Err ==> r->Err_0 == CodecError::InvalidEncoding,
{
    match decode_no_pad(s) {
        Ok(v) => Ok(v),
        Err(_) => Err(CodecError::InvalidEncoding),
    }
}

} // verus!
