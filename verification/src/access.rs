//! Who may perform an operation.

use crate::error::VaultError;
use crate::identity::Address;
use vstd::prelude::*;

verus! {

/// The role that an operation asks of its caller.
#[derive(Clone, Copy, PartialEq, Eq, Structural, Debug)]
pub enum Role {
    /// The single owner of a yield vault.
    Owner,
    /// The creator of a vault record.
    Creator,
    /// Anybody.
    Unrestricted,
}

/// Whether `caller` may act in `role`, where `holder` is the identity that holds
/// the role for the resource in question.
pub open spec fn permits(caller: Address, role: Role, holder: Address) -> bool {
    role == Role::Unrestricted || caller == holder
}

/// What the authorization check answers.
pub open spec fn spec_authorize(caller: Address, role: Role, holder: Address) -> Result<
    (),
    VaultError,
> {
    if permits(caller, role, holder) {
        Ok(())
    } else {
        Err(VaultError::Unauthorized)
    }
}

/// Checks that `caller` may act in `role` on a resource whose role holder is `holder`.
pub fn authorize(caller: Address, role: Role, holder: Address) -> (verdict: Result<
    (),
    VaultError,
>)
    ensures
        verdict == spec_authorize(caller, role, holder),
{
    if role == Role::Unrestricted || caller.same(&holder) {
        Ok(())
    } else {
        Err(VaultError::Unauthorized)
    }
}

} // verus!
