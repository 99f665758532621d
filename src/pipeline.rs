use vstd::prelude::*;

use crate::codec::result_view;
use crate::error::CodecError;
use crate::laws::{law_encoded_size, law_round_trip};
use crate::layout::{decode_record, encodable, encode_record};
use crate::schema::{InstructionData, RecordModel};
use crate::text::{base64_text, from_text, to_text};

verus! {

/// The record's counts fit in their four bytes and its transport text fits in
/// memory.
pub open spec fn transportable(r: RecordModel) -> bool {
    &&& encodable(r)
    &&& 40 + 34 * r.accounts.len() + r.data.len() <= usize::MAX / 2
}

/// What checking a decoding result against an expected record yields.
pub open spec fn check_outcome(decoded: Result<RecordModel, CodecError>, expected: RecordModel) -> Result<(), CodecError> {
    match decoded {
        Ok(m) => if m == expected {
            Ok(())
        } else {
            Err(CodecError::RoundTripMismatch)
        },
        Err(e) => Err(e),
    }
}

/// The record that the transport text `s` carries.
pub fn decode_text(s: &str) -> (r: Result<InstructionData, CodecError>)
    ensures
        forall|b: Seq<u8>| #[trigger] base64_text(b) == s@ ==> result_view(r) == decode_record(b),
        (forall|b: Seq<u8>| #[trigger] base64_text(b) != s@) ==> r == Err::<InstructionData, CodecError>(
            CodecError::InvalidEncoding,
        ),
{
    match from_text(s) {
        Ok(bytes) => InstructionData::from_bytes(bytes.as_slice()),
        Err(e) => {
            assert(forall|b: Seq<u8>| #[trigger] base64_text(b) != s@);
            Err(e)
        },
    }
}

/// Checks that the transport text `s` carries exactly the record `expected`.
pub fn verify_text(s: &str, expected: &InstructionData) -> (r: Result<(), CodecError>)
    ensures
        forall|b: Seq<u8>| #[trigger] base64_text(b) == s@ ==> r == check_outcome(
            decode_record(b),
            expected@,
        ),
        (forall|b: Seq<u8>| #[trigger] base64_text(b) != s@) ==> r == Err::<(), CodecError>(
            CodecError::InvalidEncoding,
        ),
{
    match decode_text(s) {
        Ok(decoded) => {
            if decoded == *expected {
                Ok(())
            } else {
                Err(CodecError::RoundTripMismatch)
            }
        },
        Err(e) => Err(e),
    }
}

/// The transport text of a record: its canonical encoding in unpadded base64,
/// released only after the text has been decoded back and found equal to the
/// record.
pub fn encode_verified(d: &InstructionData) -> (r: Result<String, CodecError>)
    requires
        transportable(d@),
    ensures
        r is Ok,
        r->Ok_0@ == base64_text(encode_record(d@)),
{
    let bytes = d.to_bytes();
    proof {
        law_encoded_size(*d);
        law_round_trip(*d);
    }
    let text = to_text(bytes.as_slice());
    match verify_text(text.as_str(), d) {
        Ok(()) => Ok(text),
        Err(e) => {
            assert(base64_text(bytes@) == text@);
            Err(e)
        },
    }
}

} // verus!
