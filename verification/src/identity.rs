use vstd::prelude::*;

verus! {

/// What stands behind an identity: a user account or a deployed contract.
#[derive(Clone, Copy, Debug, PartialEq, Eq, Structural)]
pub enum IdentityKind {
    Account,
    Contract,
}

/// A caller identity: the kind of principal and its 32-byte key.
///
/// Two identities are the same principal exactly when kind and key agree.
#[derive(Clone, Copy, Debug, PartialEq, Eq)]
pub struct Identity {
    pub kind: IdentityKind,
    pub key: [u8; 32],
}

impl Identity {
    /// The identity of the account with the given key.
    pub fn from_account(key: [u8; 32]) -> (id: Identity)
        ensures
            id == (Identity { kind: IdentityKind::Account, key }),
    {
        Identity { kind: IdentityKind::Account, key }
    }

    /// The identity of the contract with the given key.
    pub fn from_contract_id(key: [u8; 32]) -> (id: Identity)
        ensures
            id == (Identity { kind: IdentityKind::Contract, key }),
    {
        Identity { kind: IdentityKind::Contract, key }
    }

    /// Whether two identities name the same principal.
    pub fn same(&self, other: &Identity) -> (r: bool)
        ensures
            r == (*self == *other),
    {
        if self.kind != other.kind {
            return false;
        }
        let mut i: usize = 0;
        while i < 32
            invariant
                i <= 32,
                forall|j: int| 0 <= j < i ==> self.key[j] == other.key[j],
            decreases 32 - i,
        {
            if self.key[i] != other.key[i] {
                return false;
            }
            i += 1;
        }
        assert(self.key =~= other.key);
        true
    }
}

} // verus!
