//! The ways in which an operation on a vault can fail.

use vstd::prelude::*;

verus! {

/// Why an operation was refused or could not be completed.
#[derive(Clone, Copy, PartialEq, Eq, Structural, Debug)]
pub enum VaultError {
    /// The payment is in the wrong asset or is not positive.
    InvalidPayment,
    /// No vault has the given id.
    NotFound,
    /// The caller does not hold the role that the operation asks for.
    Unauthorized,
    /// The vault has nobody to distribute to.
    NoBeneficiaries,
    /// The vault holds nothing to distribute.
    NoFunds,
    /// A governance value lies outside its allowed range.
    InvalidParameter,
    /// The rewards destination is the vault itself or the zero identity.
    InvalidAddress,
    /// The share token has already been issued.
    AlreadyIssued,
    /// Shares are outstanding while no free funds back them.
    DegenerateShareState,
    /// The transfer service failed to pay a beneficiary.
    TransferError,
    /// The token registry failed to issue the share token.
    IssueError,
}

impl VaultError {
    /// The words that describe the failure.
    pub open spec fn spec_message(self) -> Seq<char> {
        match self {
            VaultError::InvalidPayment => "the payment must be a positive amount of egld"@,
            VaultError::NotFound => "no vault has this id"@,
            VaultError::Unauthorized => "the caller is not allowed to do this"@,
            VaultError::NoBeneficiaries => "no addresses to distribute to"@,
            VaultError::NoFunds => "no funds available"@,
            VaultError::InvalidParameter => "the value is out of range"@,
            VaultError::InvalidAddress => "wrong address for rewards"@,
            VaultError::AlreadyIssued => "token already issued"@,
            VaultError::DegenerateShareState => "shares are outstanding but no funds are free"@,
            VaultError::TransferError => "a transfer failed"@,
            VaultError::IssueError => "the vault token was not issued"@,
        }
    }

    /// Describes the failure in words.
    pub fn message(self) -> (words: &'static str)
        ensures
            words@ == self.spec_message(),
    {
        match self {
            VaultError::InvalidPayment => "the payment must be a positive amount of egld",
            VaultError::NotFound => "no vault has this id",
            VaultError::Unauthorized => "the caller is not allowed to do this",
            VaultError::NoBeneficiaries => "no addresses to distribute to",
            VaultError::NoFunds => "no funds available",
            VaultError::InvalidParameter => "the value is out of range",
            VaultError::InvalidAddress => "wrong address for rewards",
            VaultError::AlreadyIssued => "token already issued",
            VaultError::DegenerateShareState => "shares are outstanding but no funds are free",
            VaultError::TransferError => "a transfer failed",
            VaultError::IssueError => "the vault token was not issued",
        }
    }
}

} // verus!
