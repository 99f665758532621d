use vstd::prelude::*;

verus! {

/// The mathematical content of an account reference.
pub struct AccountModel {
    pub address: Seq<u8>,
    pub is_signer: bool,
    pub is_writable: bool,
}

/// The mathematical content of an instruction record.
pub struct RecordModel {
    pub program_id: Seq<u8>,
    pub accounts: Seq<AccountModel>,
    pub data: Seq<u8>,
}

/// Account metadata used to define instructions.
#[derive(Clone, Copy, Debug)]
pub struct AccountMetaData {
    /// The account's 32-byte address.
    pub pubkey: [u8; 32],
    /// True if an instruction requires a transaction signature matching `pubkey`.
    pub is_signer: bool,
    /// True if the account at `pubkey` can be loaded as a read-write account.
    pub is_writable: bool,
}

/// An instruction in its transport form: the processor that executes it, the
/// accounts it is handed (by position), and an opaque payload.
#[derive(Clone, Debug)]
pub struct InstructionData {
    /// Address of the instruction processor that executes this instruction.
    pub program_id: [u8; 32],
    /// Metadata for what accounts should be passed to the instruction processor.
    pub accounts: Vec<AccountMetaData>,
    /// Opaque data passed to the instruction processor.
    pub data: Vec<u8>,
}

impl View for AccountMetaData {
    type V = AccountModel;

    open spec fn view(&self) -> AccountModel {
        AccountModel {
            address: self.pubkey@,
            is_signer: self.is_signer,
            is_writable: self.is_writable,
        }
    }
}

/// The models of a sequence of accounts, position by position.
pub open spec fn accounts_view(s: Seq<AccountMetaData>) -> Seq<AccountModel> {
    s.map_values(|a: AccountMetaData| a@)
}

impl View for InstructionData {
    type V = RecordModel;

    open spec fn view(&self) -> RecordModel {
        RecordModel {
            program_id: self.program_id@,
            accounts: accounts_view(self.accounts@),
            data: self.data@,
        }
    }
}

/// Byte-for-byte equality of two 32-byte identifiers.
pub fn same_id(a: &[u8; 32], b: &[u8; 32]) -> (r: bool)
    ensures
        r == (a@ == b@),
{
    let mut i: usize = 0;
    while i < 32
        invariant
            0 <= i <= 32,
            forall|j: int| 0 <= j < i ==> a@[j] == b@[j],
        decreases 32 - i,
    {
        if a[i] != b[i] {
            return false;
        }
        i = i + 1;
    }
    assert(a@ =~= b@);
    true
}

/// Byte-for-byte equality of two byte sequences.
pub fn same_bytes(a: &Vec<u8>, b: &Vec<u8>) -> (r: bool)
    ensures
        r == (a@ == b@),
{
    if a.len() != b.len() {
        return false;
    }
    let mut i: usize = 0;
    while i < a.len()
        invariant
            0 <= i <= a@.len(),
            a@.len() == b@.len(),
            forall|j: int| 0 <= j < i ==> a@[j] == b@[j],
        decreases a@.len() - i,
    {
        if a[i] != b[i] {
            return false;
        }
        i = i + 1;
    }
    assert(a@ =~= b@);
    true
}

impl PartialEq for AccountMetaData {
    fn eq(&self, other: &AccountMetaData) -> (r: bool) {
        same_id(&self.pubkey, &other.pubkey) && self.is_signer == other.is_signer
            && self.is_writable == other.is_writable
    }
}

impl vstd::std_specs::cmp::PartialEqSpecImpl for AccountMetaData {
    open spec fn obeys_eq_spec() -> bool {
        true
    }

    open spec fn eq_spec(&self, other: &AccountMetaData) -> bool {
        self@ == other@
    }
}

impl Eq for AccountMetaData {

}

impl PartialEq for InstructionData {
    fn eq(&self, other: &InstructionData) -> (r: bool) {
        if !same_id(&self.program_id, &other.program_id) || !same_bytes(&self.data, &other.data) {
            return false;
        }
        if self.accounts.len() != other.accounts.len() {
            assert(self@.accounts.len() != other@.accounts.len());
            return false;
        }
        let mut i: usize = 0;
        while i < self.accounts.len()
            invariant
                0 <= i <= self@.accounts.len(),
                self.accounts@.len() == other.accounts@.len(),
                forall|j: int| 0 <= j < i ==> self@.accounts[j] == other@.accounts[j],
            decreases self.accounts@.len() - i,
        {
            if !(self.accounts[i] == other.accounts[i]) {
                assert(self@.accounts[i as int] != other@.accounts[i as int]);
                return false;
            }
            i = i + 1;
        }
        assert(self@.accounts =~= other@.accounts);
        true
    }
}

impl vstd::std_specs::cmp::PartialEqSpecImpl for InstructionData {
    open spec fn obeys_eq_spec() -> bool {
        true
    }

    open spec fn eq_spec(&self, other: &InstructionData) -> bool {
        self@ == other@
    }
}

impl Eq for InstructionData {

}

} // verus!
