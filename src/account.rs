use vstd::prelude::*;

verus! {

/// Number of bytes in an account identifier.
pub const ACCOUNT_BYTES: usize = 20;

/// An account identifier, held as its twenty raw bytes.
#[derive(Clone, Copy, Debug, PartialEq, Eq, Hash)]
pub struct Account {
    pub bytes: [u8; 20],
}

impl View for Account {
    type V = Seq<u8>;

    open spec fn view(&self) -> Seq<u8> {
        self.bytes@
    }
}

impl Account {
    pub fn new(bytes: [u8; 20]) -> (r: Account)
        ensures
            r@ == bytes@,
    {
        Account { bytes }
    }

    /// Whether two identifiers name the same account.
    pub fn same(&self, other: &Account) -> (r: bool)
        ensures
            r == (self@ == other@),
    {
        let mut i: usize = 0;
        while i < ACCOUNT_BYTES
            invariant
                0 <= i <= ACCOUNT_BYTES,
                self@.len() == ACCOUNT_BYTES,
                other@.len() == ACCOUNT_BYTES,
                forall|j: int| 0 <= j < i ==> self@[j] == other@[j],
            decreases ACCOUNT_BYTES - i,
        {
            if self.bytes[i] != other.bytes[i] {
                assert(self@[i as int] != other@[i as int]);
                return false;
            }
            i = i + 1;
        }
        assert(self@ =~= other@);
        true
    }
}

} // verus!
