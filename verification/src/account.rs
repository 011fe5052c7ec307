//! Account identifiers for the ledger: opaque byte strings, 32 bytes long
//! wherever they come from the query surface.
use vstd::prelude::*;

verus! {

/// A ledger account identifier. The query surface only ever builds values
/// whose byte string is exactly 32 bytes long; the length is checked at that
/// boundary, not carried as an invariant.
pub struct AccountId {
    pub bytes: Vec<u8>,
}

impl View for AccountId {
    type V = Seq<u8>;

    open spec fn view(&self) -> Seq<u8> {
        self.bytes@
    }
}

impl Clone for AccountId {
    fn clone(&self) -> (r: Self)
        ensures
            r@ == self@,
    {
        let r = AccountId { bytes: self.bytes.clone() };
        proof {
            assert(r.bytes@ =~= self.bytes@);
        }
        r
    }
}

impl AccountId {
    /// Builds an account identifier from its raw byte string.
    pub fn from_bytes(bytes: Vec<u8>) -> (r: AccountId)
        ensures
            r@ == bytes@,
    {
        AccountId { bytes }
    }
}

/// Byte-for-byte equality of two account identifiers.
pub fn account_eq(a: &AccountId, b: &AccountId) -> (r: bool)
    ensures
        r == (a@ == b@),
{
    if a.bytes.len() != b.bytes.len() {
        return false;
    }
    let n = a.bytes.len();
    let mut i: usize = 0;
    while i < n
        invariant
            i <= n,
            n == a.bytes.len() == b.bytes.len(),
            forall|j: int| 0 <= j < i ==> a.bytes@[j] == b.bytes@[j],
        decreases n - i,
    {
        if a.bytes[i] != b.bytes[i] {
            return false;
        }
        i += 1;
    }
    proof {
        assert(a@ =~= b@);
    }
    true
}

} // verus!
