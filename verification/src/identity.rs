//! Identities of accounts and of assets.

use vstd::prelude::*;

verus! {

/// The identity of an account: an opaque value of 32 bytes.
#[derive(Clone, Copy, PartialEq, Eq, Debug)]
pub struct Address {
    pub bytes: [u8; 32],
}

impl Address {
    /// The identity made of the given bytes.
    pub fn from_bytes(bytes: [u8; 32]) -> (address: Address)
        ensures
            address.bytes@ == bytes@,
    {
        Address { bytes }
    }

    /// The identity whose bytes are all zero, which stands for no account.
    pub fn zero() -> (address: Address)
        ensures
            address.spec_is_zero(),
    {
        Address { bytes: [0u8; 32] }
    }

    /// Whether every byte of the identity is zero.
    pub open spec fn spec_is_zero(&self) -> bool {
        forall|k: int| 0 <= k < 32 ==> self.bytes@[k] == 0
    }

    /// Decides whether two identities are the same.
    pub fn same(&self, other: &Address) -> (same: bool)
        ensures
            same == (*self == *other),
    {
        let mut i: usize = 0;
        while i < 32
            invariant
                i <= 32,
                forall|k: int| 0 <= k < i ==> self.bytes@[k] == other.bytes@[k],
            decreases 32 - i,
        {
            if self.bytes[i] != other.bytes[i] {
                return false;
            }
            i += 1;
        }
        assert(self.bytes@ =~= other.bytes@);
        assert(self.bytes == other.bytes);
        true
    }

    /// Decides whether this is the zero identity.
    pub fn is_zero(&self) -> (zero: bool)
        ensures
            zero == self.spec_is_zero(),
    {
        let mut i: usize = 0;
        while i < 32
            invariant
                i <= 32,
                forall|k: int| 0 <= k < i ==> self.bytes@[k] == 0,
            decreases 32 - i,
        {
            if self.bytes[i] != 0 {
                return false;
            }
            i += 1;
        }
        true
    }
}

/// The identity of an asset: its name as bytes.
///
/// The empty name stands for the native coin, EGLD. The view is the name.
#[derive(PartialEq, Eq, Debug)]
pub struct TokenId {
    pub name: Vec<u8>,
}

impl View for TokenId {
    type V = Seq<u8>;

    open spec fn view(&self) -> Seq<u8> {
        self.name@
    }
}

/// Copies a sequence of bytes.
pub fn copy_bytes(bytes: &Vec<u8>) -> (copy: Vec<u8>)
    ensures
        copy@ == bytes@,
{
    let mut copy: Vec<u8> = Vec::new();
    let mut i: usize = 0;
    while i < bytes.len()
        invariant
            i <= bytes.len(),
            copy@ =~= bytes@.take(i as int),
        decreases bytes.len() - i,
    {
        copy.push(bytes[i]);
        i += 1;
    }
    assert(copy@ =~= bytes@);
    copy
}

impl Clone for TokenId {
    fn clone(&self) -> (copy: Self)
        ensures
            copy@ == self@,
    {
        TokenId { name: copy_bytes(&self.name) }
    }
}

/// Whether a name is that of the native coin.
pub open spec fn is_egld_name(name: Seq<u8>) -> bool {
    name.len() == 0
}

impl TokenId {
    /// The asset with the given name.
    pub fn new(name: Vec<u8>) -> (token: TokenId)
        ensures
            token@ == name@,
    {
        TokenId { name }
    }

    /// The native coin.
    pub fn egld() -> (token: TokenId)
        ensures
            is_egld_name(token@),
    {
        TokenId { name: Vec::new() }
    }

    /// Decides whether two assets are the same.
    pub fn same(&self, other: &TokenId) -> (same: bool)
        ensures
            same == (self@ == other@),
    {
        if self.name.len() != other.name.len() {
            return false;
        }
        let mut i: usize = 0;
        while i < self.name.len()
            invariant
                i <= self.name.len(),
                self.name.len() == other.name.len(),
                forall|k: int| 0 <= k < i ==> self.name@[k] == other.name@[k],
            decreases self.name.len() - i,
        {
            if self.name[i] != other.name[i] {
                return false;
            }
            i += 1;
        }
        assert(self.name@ =~= other.name@);
        true
    }

    /// Decides whether this asset is the native coin.
    pub fn is_egld(&self) -> (native: bool)
        ensures
            native == is_egld_name(self@),
    {
        self.name.len() == 0
    }
}

} // verus!
