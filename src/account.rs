use vstd::prelude::*;

use crate::table::TableKey;

verus! {

/// Height of a block, as supplied by the chain.
pub type BlockNumber = u32;

/// A fixed-size account identity. The all-zero identity is reserved and means
/// "no account".
#[derive(Clone, Copy, Debug, PartialEq, Eq, Hash)]
pub struct AccountId {
    pub bytes: [u8; 32],
}

impl AccountId {
    pub open spec fn view_bytes(&self) -> Seq<u8> {
        self.bytes@
    }

    /// The reserved identity whose bytes are all zero.
    pub open spec fn sentinel() -> AccountId {
        AccountId { bytes: vstd::array::spec_array_fill_for_copy_type::<u8, 32>(0u8) }
    }

    pub open spec fn is_sentinel(&self) -> bool {
        *self == AccountId::sentinel()
    }

    pub fn new(bytes: [u8; 32]) -> (r: AccountId)
        ensures
            r.view_bytes() == bytes@,
    {
        AccountId { bytes }
    }

    pub fn as_bytes(&self) -> (r: [u8; 32])
        ensures
            r@ == self.view_bytes(),
    {
        self.bytes
    }

    /// The reserved all-zero identity.
    pub fn zero() -> (r: AccountId)
        ensures
            r == AccountId::sentinel(),
    {
        AccountId { bytes: vstd::array::array_fill_for_copy_types::<u8, 32>(0u8) }
    }

    pub fn is_zero(&self) -> (r: bool)
        ensures
            r == self.is_sentinel(),
    {
        self.same(&AccountId::zero())
    }
}

impl TableKey for AccountId {
    fn same(&self, other: &Self) -> (r: bool) {
        let mut i: usize = 0;
        while i < 32
            invariant
                i <= 32,
                forall|j: int| 0 <= j < i ==> self.bytes@[j] == other.bytes@[j],
            decreases 32 - i,
        {
            if self.bytes[i] != other.bytes[i] {
                return false;
            }
            i = i + 1;
        }
        proof {
            broadcast use vstd::array::group_array_axioms;

            assert(self.bytes@ =~= other.bytes@);
            vstd::array::axiom_array_ext_equal(self.bytes, other.bytes);
        }
        true
    }
}

/// Who is calling and at which block height: the context of one operation.
#[derive(Clone, Copy, Debug)]
pub struct CallContext {
    pub caller: AccountId,
    pub block_number: BlockNumber,
}

} // verus!
