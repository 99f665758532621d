use vstd::prelude::*;

use crate::error::CodecError;
use crate::schema::{AccountModel, RecordModel};

verus! {

/// The four little-endian bytes of a count below 2^32.
pub open spec fn u32_le(n: nat) -> Seq<u8> {
    seq![
        (n % 256) as u8,
        ((n / 256) % 256) as u8,
        ((n / 65536) % 256) as u8,
        ((n / 16777216) % 256) as u8,
    ]
}

/// The count held in the four little-endian bytes of `b` that start at `at`.
pub open spec fn le32_at(b: Seq<u8>, at: int) -> nat {
    (b[at] as nat) + 256 * (b[at + 1] as nat) + 65536 * (b[at + 2] as nat) + 16777216 * (
    b[at + 3] as nat)
}

pub proof fn lemma_le32_of_u32_le(n: nat)
    requires
        n < 0x1_0000_0000,
    ensures
        le32_at(u32_le(n), 0) == n,
{
    let v = n as u32;
    assert((v % 256) + 256 * ((v / 256) % 256) + 65536 * ((v / 65536) % 256) + 16777216 * ((v
        / 16777216) % 256) == v) by (bit_vector);
}

/// Appends the four little-endian bytes of `n`.
pub fn push_u32_le(out: &mut Vec<u8>, n: u32)
    ensures
        final(out)@ == old(out)@ + u32_le(n as nat),
{
    out.push((n % 256) as u8);
    out.push(((n / 256) % 256) as u8);
    out.push(((n / 65536) % 256) as u8);
    out.push(((n / 16777216) % 256) as u8);
    assert(out@ =~= old(out)@ + u32_le(n as nat));
}

/// Reads the four little-endian bytes of `b` that start at `at`.
pub fn read_u32_le(b: &[u8], at: usize) -> (r: u32)
    requires
        at + 4 <= b@.len(),
    ensures
        r as nat == le32_at(b@, at as int),
{
    let r: u32 = b[at] as u32 + 256 * (b[at + 1] as u32) + 65536 * (b[at + 2] as u32)
        + 16777216 * (b[at + 3] as u32);
    r
}

/// Width of a processor or account address.
pub const ID_LEN: usize = 32;

/// Width of one encoded account entry: its address and two flag bytes.
pub const ENTRY_LEN: usize = 34;

/// Offset of the first account entry: the processor address and the count.
pub const ENTRIES_START: usize = 36;

/// The byte that encodes a flag.
pub open spec fn flag_byte(f: bool) -> u8 {
    if f {
        1
    } else {
        0
    }
}

/// A flag byte is accepted only as 0 or 1.
pub open spec fn flag_ok(x: u8) -> bool {
    x == 0 || x == 1
}

/// An account entry: its 32-byte address, then the signer and writable flags.
pub open spec fn account_bytes(a: AccountModel) -> Seq<u8> {
    a.address + seq![flag_byte(a.is_signer), flag_byte(a.is_writable)]
}

/// The account entries one after another, in order.
pub open spec fn accounts_bytes(s: Seq<AccountModel>) -> Seq<u8>
    decreases s.len(),
{
    if s.len() == 0 {
        Seq::empty()
    } else {
        accounts_bytes(s.drop_last()) + account_bytes(s.last())
    }
}

/// The canonical encoding of a record: the processor address, the account
/// count, the account entries, the payload length and the payload.
pub open spec fn encode_record(r: RecordModel) -> Seq<u8> {
    r.program_id + u32_le(r.accounts.len()) + accounts_bytes(r.accounts) + u32_le(r.data.len())
        + r.data
}

/// Every address of the record is 32 bytes wide.
pub open spec fn well_formed(r: RecordModel) -> bool {
    &&& r.program_id.len() == 32
    &&& forall|j: int| 0 <= j < r.accounts.len() ==> (#[trigger] r.accounts[j]).address.len() == 32
}

/// Both counts of the record fit in their four bytes.
pub open spec fn encodable(r: RecordModel) -> bool {
    r.accounts.len() <= u32::MAX && r.data.len() <= u32::MAX
}

/// Where the account entry of index `j` starts.
pub open spec fn entry_start(j: int) -> int {
    36 + 34 * j
}

/// The account entry that starts at `at`; a flag byte of 1 reads as true.
pub open spec fn account_at(b: Seq<u8>, at: int) -> AccountModel {
    AccountModel {
        address: b.subrange(at, at + 32),
        is_signer: b[at + 32] == 1,
        is_writable: b[at + 33] == 1,
    }
}

/// The flag bytes of the first `k` entries are all 0 or 1.
pub open spec fn flags_ok_upto(b: Seq<u8>, k: int) -> bool {
    forall|j: int|
        0 <= j < k ==> flag_ok(#[trigger] b[entry_start(j) + 32]) && flag_ok(b[entry_start(j) + 33])
}

/// How many of the `n` declared entries lie whole within `b`.
pub open spec fn complete_entries(b: Seq<u8>, n: int) -> int {
    if entry_start(n) <= b.len() {
        n
    } else {
        (b.len() - 36) / 34
    }
}

/// Reading a record from `b` left to right: the first problem met decides the
/// error, and a complete record must use every byte.
pub open spec fn decode_record(b: Seq<u8>) -> Result<RecordModel, CodecError> {
    if b.len() < 36 {
        Err(CodecError::TruncatedInput)
    } else {
        let n = le32_at(b, 32) as int;
        let end = entry_start(n);
        if !flags_ok_upto(b, complete_entries(b, n)) {
            Err(CodecError::InvalidFlag)
        } else if b.len() < end + 4 {
            Err(CodecError::TruncatedInput)
        } else {
            let m = le32_at(b, end) as int;
            if b.len() < end + 4 + m {
                Err(CodecError::TruncatedInput)
            } else if b.len() > end + 4 + m {
                Err(CodecError::TrailingBytes)
            } else {
                Ok(
                    RecordModel {
                        program_id: b.subrange(0, 32),
                        accounts: Seq::new(n as nat, |j: int| account_at(b, entry_start(j))),
                        data: b.subrange(end + 4, b.len() as int),
                    },
                )
            }
        }
    }
}

} // verus!
