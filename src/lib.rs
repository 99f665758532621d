//! Canonical binary layout for instruction records, with an unpadded base64
//! text transport and a round-trip self-check.

mod codec;
mod error;
mod laws;
mod layout;
mod pipeline;
mod schema;
mod text;

pub use codec::result_view;
pub use error::CodecError;
pub use laws::{
    law_account_order_kept, law_encoded_size, law_round_trip, law_trailing_byte_detected,
    law_truncation_detected, lemma_accounts_bytes_index, lemma_encoding_fields,
    lemma_view_well_formed,
};
pub use layout::{
    account_at, account_bytes, accounts_bytes, complete_entries, decode_record, encodable,
    encode_record, entry_start, flag_byte, flag_ok, flags_ok_upto, le32_at, push_u32_le,
    read_u32_le, u32_le, well_formed, ENTRIES_START, ENTRY_LEN, ID_LEN,
};
pub use schema::{
    accounts_view, same_bytes, same_id, AccountMetaData, AccountModel, InstructionData,
    RecordModel,
};
pub use pipeline::{check_outcome, decode_text, encode_verified, transportable, verify_text};
pub use text::{base64_text, from_text, to_text};
