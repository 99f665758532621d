use vstd::prelude::*;

use crate::error::CodecError;
use crate::layout::{
    account_at, account_bytes, accounts_bytes, complete_entries, decode_record, encodable,
    encode_record, entry_start, flag_byte, flag_ok, flags_ok_upto, le32_at, push_u32_le, read_u32_le,
    ENTRIES_START, ENTRY_LEN, ID_LEN,
};
use crate::schema::{accounts_view, AccountMetaData, InstructionData, RecordModel};

verus! {

/// A decoding result seen through the models of its record.
pub open spec fn result_view(r: Result<InstructionData, CodecError>) -> Result<RecordModel, CodecError> {
    match r {
        Ok(d) => Ok(d@),
        Err(e) => Err(e),
    }
}

fn push_id(out: &mut Vec<u8>, id: &[u8; 32])
    ensures
        final(out)@ == old(out)@ + id@,
{
    let mut i: usize = 0;
    while i < ID_LEN
        invariant
            0 <= i <= 32,
            out@ == old(out)@ + id@.take(i as int),
        decreases 32 - i,
    {
        out.push(id[i]);
        i = i + 1;
        assert(id@.take(i as int) =~= id@.take(i - 1).push(id@[i - 1]));
    }
    assert(id@.take(32) =~= id@);
}

fn flag_to_byte(f: bool) -> (r: u8)
    ensures
        r == flag_byte(f),
{
    if f {
        1
    } else {
        0
    }
}

fn copy_id(b: &[u8], at: usize) -> (r: [u8; 32])
    requires
        at + 32 <= b@.len(),
    ensures
        r@ == b@.subrange(at as int, at + 32),
{
    let len = b.len();
    let mut r = [0u8; 32];
    let mut i: usize = 0;
    while i < ID_LEN
        invariant
            0 <= i <= 32,
            len == b@.len(),
            at + 32 <= b@.len(),
            r@.len() == 32,
            forall|j: int| 0 <= j < i ==> r@[j] == b@[at + j],
        decreases 32 - i,
    {
        r[i] = b[at + i];
        i = i + 1;
    }
    assert(r@ =~= b@.subrange(at as int, at + 32));
    r
}

fn copy_tail(b: &[u8], from: usize) -> (r: Vec<u8>)
    requires
        from <= b@.len(),
    ensures
        r@ == b@.subrange(from as int, b@.len() as int),
{
    let mut r: Vec<u8> = Vec::new();
    let mut i: usize = from;
    while i < b.len()
        invariant
            from <= i <= b@.len(),
            r@ == b@.subrange(from as int, i as int),
        decreases b@.len() - i,
    {
        r.push(b[i]);
        i = i + 1;
        assert(r@ =~= b@.subrange(from as int, i as int));
    }
    r
}

impl InstructionData {
    /// The canonical encoding of this record.
    pub fn to_bytes(&self) -> (r: Vec<u8>)
        requires
            encodable(self@),
        ensures
            r@ == encode_record(self@),
    {
        let mut out: Vec<u8> = Vec::new();
        push_id(&mut out, &self.program_id);
        push_u32_le(&mut out, self.accounts.len() as u32);
        let ghost head = out@;
        let ghost accs = accounts_view(self.accounts@);
        let mut i: usize = 0;
        while i < self.accounts.len()
            invariant
                0 <= i <= self.accounts@.len(),
                accs == accounts_view(self.accounts@),
                out@ == head + accounts_bytes(accs.take(i as int)),
            decreases self.accounts@.len() - i,
        {
            let a = &self.accounts[i];
            push_id(&mut out, &a.pubkey);
            out.push(flag_to_byte(a.is_signer));
            out.push(flag_to_byte(a.is_writable));
            proof {
                let t = accs.take(i + 1);
                assert(t.drop_last() =~= accs.take(i as int));
                assert(t.last() == accs[i as int]);
                assert(out@ =~= head + accounts_bytes(accs.take(i as int)) + account_bytes(
                    accs[i as int],
                ));
            }
            i = i + 1;
        }
        assert(accs.take(self.accounts@.len() as int) =~= accs);
        push_u32_le(&mut out, self.data.len() as u32);
        let mut k: usize = 0;
        let ghost mid = out@;
        while k < self.data.len()
            invariant
                0 <= k <= self.data@.len(),
                out@ == mid + self.data@.take(k as int),
            decreases self.data@.len() - k,
        {
            out.push(self.data[k]);
            k = k + 1;
            assert(out@ =~= mid + self.data@.take(k as int));
        }
        assert(self.data@.take(self.data@.len() as int) =~= self.data@);
        assert(out@ =~= encode_record(self@));
        out
    }

    /// Reads a record from its canonical encoding, left to right.
    pub fn from_bytes(b: &[u8]) -> (r: Result<InstructionData, CodecError>)
        ensures
            result_view(r) == decode_record(b@),
    {
        let len = b.len();
        if len < ENTRIES_START {
            return Err(CodecError::TruncatedInput);
        }
        let n = read_u32_le(b, 32);
        let program_id = copy_id(b, 0);
        let mut accounts: Vec<AccountMetaData> = Vec::new();
        let mut at: usize = ENTRIES_START;
        let mut i: u32 = 0;
        while i < n
            invariant
                len == b@.len(),
                36 <= len,
                n == le32_at(b@, 32),
                i <= n,
                at == entry_start(i as int),
                at <= len,
                flags_ok_upto(b@, i as int),
                accounts@.len() == i,
                forall|j: int|
                    0 <= j < i ==> (#[trigger] accounts@[j])@ == account_at(b@, entry_start(j)),
            decreases n - i,
        {
            if len - at < ENTRY_LEN {
                proof {
                    let q = (len - 36) as int;
                    assert(q / 34 == i) by (nonlinear_arith)
                        requires
                            34 * i <= q < 34 * i + 34,
                    ;
                    assert(complete_entries(b@, n as int) == i);
                }
                return Err(CodecError::TruncatedInput);
            }
            let pubkey = copy_id(b, at);
            let s = b[at + 32];
            let w = b[at + 33];
            if s > 1 || w > 1 {
                proof {
                    let q = (len - 36) as int;
                    assert(i < q / 34) by (nonlinear_arith)
                        requires
                            34 * i + 34 <= q,
                    ;
                    assert(i < complete_entries(b@, n as int));
                    assert(!flag_ok(b@[entry_start(i as int) + 32]) || !flag_ok(b@[entry_start(i as int) + 33]));
                }
                return Err(CodecError::InvalidFlag);
            }
            proof {
                assert forall|j: int| 0 <= j < i + 1 implies flag_ok(
                    #[trigger] b@[entry_start(j) + 32],
                ) && flag_ok(b@[entry_start(j) + 33]) by {
                    if j < i {
                        assert(flags_ok_upto(b@, i as int));
                    }
                }
            }
            accounts.push(AccountMetaData { pubkey, is_signer: s == 1, is_writable: w == 1 });
            at = at + ENTRY_LEN;
            i = i + 1;
        }
        if len - at < 4 {
            return Err(CodecError::TruncatedInput);
        }
        let m = read_u32_le(b, at);
        let start = at + 4;
        if len - start < m as usize {
            return Err(CodecError::TruncatedInput);
        }
        if len - start > m as usize {
            return Err(CodecError::TrailingBytes);
        }
        let data = copy_tail(b, start);
        let r = InstructionData { program_id, accounts, data };
        proof {
            assert(complete_entries(b@, n as int) == n);
            let d = decode_record(b@).unwrap();
            assert(r@.accounts =~= d.accounts);
        }
        Ok(r)
    }
}

} // verus!
