use vstd::prelude::*;

use crate::error::CodecError;
use crate::layout::{
    account_at, account_bytes, accounts_bytes, complete_entries, decode_record, encodable,
    encode_record, entry_start, flag_byte, flag_ok, flags_ok_upto, lemma_le32_of_u32_le, le32_at,
    u32_le, well_formed,
};
use crate::schema::{AccountModel, InstructionData, RecordModel};

verus! {

/// Every address held by an `InstructionData` is 32 bytes wide.
pub proof fn lemma_view_well_formed(d: InstructionData)
    ensures
        well_formed(d@),
{
    assert forall|j: int| 0 <= j < d@.accounts.len() implies (#[trigger] d@.accounts[j]).address.len()
        == 32 by {
        assert(d@.accounts[j] == d.accounts@[j]@);
    }
}

/// The account entries lie back to back, 34 bytes each.
pub proof fn lemma_accounts_bytes_index(s: Seq<AccountModel>)
    requires
        forall|j: int| 0 <= j < s.len() ==> (#[trigger] s[j]).address.len() == 32,
    ensures
        accounts_bytes(s).len() == 34 * s.len(),
        forall|j: int, t: int|
            0 <= j < s.len() && 0 <= t < 34 ==> accounts_bytes(s)[34 * j + t]
                == #[trigger] account_bytes(s[j])[t],
    decreases s.len(),
{
    if s.len() > 0 {
        let p = s.drop_last();
        lemma_accounts_bytes_index(p);
        assert(s.last() == s[s.len() - 1]);
        assert(account_bytes(s.last()).len() == 34);
        assert forall|j: int, t: int| 0 <= j < s.len() && 0 <= t < 34 implies accounts_bytes(
            s,
        )[34 * j + t] == #[trigger] account_bytes(s[j])[t] by {
            if j < s.len() - 1 {
                assert(p[j] == s[j]);
                assert(account_bytes(p[j])[t] == account_bytes(s[j])[t]);
            }
        }
    }
}

/// Where each field of a well-formed record stands in its encoding.
pub proof fn lemma_encoding_fields(r: RecordModel)
    requires
        well_formed(r),
        encodable(r),
    ensures
        ({
            let e = encode_record(r);
            let n = r.accounts.len() as int;
            let end = entry_start(n);
            &&& e.len() == end + 4 + r.data.len()
            &&& le32_at(e, 32) == n
            &&& le32_at(e, end) == r.data.len()
            &&& flags_ok_upto(e, n)
            &&& forall|j: int| 0 <= j < n ==> #[trigger] account_at(e, entry_start(j)) == r.accounts[j]
            &&& e.subrange(0, 32) == r.program_id
            &&& e.subrange(end + 4, e.len() as int) == r.data
        }),
{
    let e = encode_record(r);
    let n = r.accounts.len() as int;
    let m = r.data.len();
    let end = entry_start(n);
    let ab = accounts_bytes(r.accounts);
    let c = u32_le(n as nat);
    let d = u32_le(m);
    lemma_accounts_bytes_index(r.accounts);
    lemma_le32_of_u32_le(n as nat);
    lemma_le32_of_u32_le(m);
    assert(e == r.program_id + c + ab + d + r.data);
    assert(e.len() == end + 4 + m);
    assert forall|k: int| 0 <= k < 32 implies e[k] == r.program_id[k] by {}
    assert forall|k: int| 0 <= k < 4 implies e[32 + k] == c[k] && e[end + k] == d[k] by {}
    assert forall|k: int| 0 <= k < 34 * n implies e[36 + k] == ab[k] by {}
    assert forall|k: int| 0 <= k < m implies e[end + 4 + k] == r.data[k] by {}
    assert(le32_at(e, 32) == le32_at(c, 0));
    assert(le32_at(e, end) == le32_at(d, 0));
    assert forall|j: int| 0 <= j < n implies #[trigger] account_at(e, entry_start(j))
        == r.accounts[j] by {
        let a = r.accounts[j];
        assert forall|t: int| 0 <= t < 34 implies e[entry_start(j) + t] == account_bytes(a)[t] by {
            assert(ab[34 * j + t] == account_bytes(a)[t]);
            assert(e[36 + (34 * j + t)] == ab[34 * j + t]);
        }
        assert(a.address.len() == 32);
        assert forall|t: int| 0 <= t < 32 implies account_at(e, entry_start(j)).address[t]
            == a.address[t] by {
            assert(e[entry_start(j) + t] == account_bytes(a)[t]);
        }
        assert(account_at(e, entry_start(j)).address =~= a.address);
        assert(account_bytes(a)[32] == flag_byte(a.is_signer));
        assert(account_bytes(a)[33] == flag_byte(a.is_writable));
        assert(e[entry_start(j) + 32] == flag_byte(a.is_signer));
        assert(e[entry_start(j) + 33] == flag_byte(a.is_writable));
    }
    assert forall|j: int| 0 <= j < n implies flag_ok(#[trigger] e[entry_start(j) + 32]) && flag_ok(
        e[entry_start(j) + 33],
    ) by {
        let a = r.accounts[j];
        assert(ab[34 * j + 32] == account_bytes(a)[32]);
        assert(ab[34 * j + 33] == account_bytes(a)[33]);
        assert(e[36 + (34 * j + 32)] == ab[34 * j + 32]);
        assert(e[36 + (34 * j + 33)] == ab[34 * j + 33]);
    }
    assert(e.subrange(0, 32) =~= r.program_id);
    assert(e.subrange(end + 4, e.len() as int) =~= r.data);
}

/// The encoding of a record is 40 bytes, 34 more for each account, and one more
/// for each payload byte.
pub proof fn law_encoded_size(d: InstructionData)
    requires
        encodable(d@),
    ensures
        encode_record(d@).len() == 40 + 34 * d@.accounts.len() + d@.data.len(),
{
    lemma_view_well_formed(d);
    lemma_encoding_fields(d@);
}

/// Decoding the encoding of a record gives the same record back.
pub proof fn law_round_trip(d: InstructionData)
    requires
        encodable(d@),
    ensures
        decode_record(encode_record(d@)) == Ok::<RecordModel, CodecError>(d@),
{
    let r = d@;
    lemma_view_well_formed(d);
    lemma_encoding_fields(r);
    let e = encode_record(r);
    let n = r.accounts.len() as int;
    assert(complete_entries(e, n) == n);
    let got = decode_record(e).unwrap();
    assert(got.accounts =~= r.accounts);
    assert(got == r);
}

/// Decoding the encoding of a record keeps its accounts in their order, each
/// at its own position.
pub proof fn law_account_order_kept(d: InstructionData)
    requires
        encodable(d@),
    ensures
        decode_record(encode_record(d@)) is Ok,
        forall|j: int|
            0 <= j < d@.accounts.len() ==> (#[trigger] decode_record(
                encode_record(d@),
            )->Ok_0.accounts[j]) == d@.accounts[j],
        decode_record(encode_record(d@))->Ok_0.accounts.len() == d@.accounts.len(),
{
    law_round_trip(d);
}

/// The encoding of a record without its last byte is reported as truncated.
pub proof fn law_truncation_detected(d: InstructionData)
    requires
        encodable(d@),
    ensures
        decode_record(encode_record(d@).drop_last()) == Err::<RecordModel, CodecError>(
            CodecError::TruncatedInput,
        ),
{
    let r = d@;
    lemma_view_well_formed(d);
    lemma_encoding_fields(r);
    let e = encode_record(r);
    let b = e.drop_last();
    let n = r.accounts.len() as int;
    let end = entry_start(n);
    assert(le32_at(b, 32) == le32_at(e, 32));
    assert(complete_entries(b, n) == n);
    assert(flags_ok_upto(b, n)) by {
        assert forall|j: int| 0 <= j < n implies flag_ok(#[trigger] b[entry_start(j) + 32])
            && flag_ok(b[entry_start(j) + 33]) by {
            assert(flag_ok(e[entry_start(j) + 32]));
        }
    }
    if r.data.len() > 0 {
        assert(le32_at(b, end) == le32_at(e, end));
    }
}

/// The encoding of a record with one byte appended is reported as having
/// trailing bytes.
pub proof fn law_trailing_byte_detected(d: InstructionData, x: u8)
    requires
        encodable(d@),
    ensures
        decode_record(encode_record(d@).push(x)) == Err::<RecordModel, CodecError>(
            CodecError::TrailingBytes,
        ),
{
    let r = d@;
    lemma_view_well_formed(d);
    lemma_encoding_fields(r);
    let e = encode_record(r);
    let b = e.push(x);
    let n = r.accounts.len() as int;
    let end = entry_start(n);
    assert(le32_at(b, 32) == le32_at(e, 32));
    assert(complete_entries(b, n) == n);
    assert(flags_ok_upto(b, n)) by {
        assert forall|j: int| 0 <= j < n implies flag_ok(#[trigger] b[entry_start(j) + 32])
            && flag_ok(b[entry_start(j) + 33]) by {
            assert(flag_ok(e[entry_start(j) + 32]));
            assert(b[entry_start(j) + 32] == e[entry_start(j) + 32]);
            assert(b[entry_start(j) + 33] == e[entry_start(j) + 33]);
        }
    }
    assert(le32_at(b, end) == le32_at(e, end));
}

} // verus!
