//! The issuance of a vault's share token: what is asked of the token registry and
//! what its answers lead to.

use crate::amount::Amount;
use crate::error::VaultError;
use crate::identity::{Address, TokenId};
use crate::vault::{Payment, PaymentView};
use vstd::prelude::*;

verus! {

/// The number of decimals of the share token.
pub const SHARE_TOKEN_DECIMALS: usize = 18;

/// How far the issuance of the share token has come.
#[derive(PartialEq, Eq, Debug)]
pub enum Issuance {
    /// No issuance has been asked for.
    Uninitialized,
    /// The token registry has been asked and has not answered yet.
    Pending,
    /// The registry has issued the share token, whose identity this is.
    Issued(TokenId),
    /// The registry refused, and the cost that came back was refunded.
    Failed,
}

/// The mathematical content of an [`Issuance`].
pub enum IssuanceView {
    Uninitialized,
    Pending,
    Issued(Seq<u8>),
    Failed,
}

impl View for Issuance {
    type V = IssuanceView;

    open spec fn view(&self) -> IssuanceView {
        match self {
            Issuance::Uninitialized => IssuanceView::Uninitialized,
            Issuance::Pending => IssuanceView::Pending,
            Issuance::Issued(token) => IssuanceView::Issued(token@),
            Issuance::Failed => IssuanceView::Failed,
        }
    }
}

/// What a token may have done to it once issued.
#[derive(Clone, Copy, PartialEq, Eq, Structural, Debug)]
pub struct TokenProperties {
    pub num_decimals: usize,
    pub can_freeze: bool,
    pub can_wipe: bool,
    pub can_pause: bool,
    pub can_change_owner: bool,
    pub can_upgrade: bool,
    pub can_add_special_roles: bool,
}

/// The properties that the share token is asked for with: eighteen decimals, and
/// nothing allowed but the granting of special roles.
pub open spec fn share_token_properties() -> TokenProperties {
    TokenProperties {
        num_decimals: 18,
        can_freeze: false,
        can_wipe: false,
        can_pause: false,
        can_change_owner: false,
        can_upgrade: false,
        can_add_special_roles: true,
    }
}

/// A request to the token registry to issue the share token.
#[derive(PartialEq, Eq, Debug)]
pub struct IssueRequest {
    /// What is paid to the registry for the issuance.
    pub issue_cost: Amount,
    pub token_name: Vec<u8>,
    pub token_ticker: Vec<u8>,
    pub properties: TokenProperties,
}

/// The mathematical content of an [`IssueRequest`].
pub struct IssueRequestView {
    pub issue_cost: nat,
    pub token_name: Seq<u8>,
    pub token_ticker: Seq<u8>,
    pub properties: TokenProperties,
}

impl View for IssueRequest {
    type V = IssueRequestView;

    open spec fn view(&self) -> IssueRequestView {
        IssueRequestView {
            issue_cost: self.issue_cost@,
            token_name: self.token_name@,
            token_ticker: self.token_ticker@,
            properties: self.properties,
        }
    }
}

/// A request to the token registry to let an account mint and burn a token.
#[derive(PartialEq, Eq, Debug)]
pub struct RoleGrant {
    /// The account that is to hold the roles.
    pub address: Address,
    pub token: TokenId,
    pub mint: bool,
    pub burn: bool,
}

/// The mathematical content of a [`RoleGrant`].
pub struct RoleGrantView {
    pub address: Address,
    pub token: Seq<u8>,
    pub mint: bool,
    pub burn: bool,
}

impl View for RoleGrant {
    type V = RoleGrantView;

    open spec fn view(&self) -> RoleGrantView {
        RoleGrantView {
            address: self.address,
            token: self.token@,
            mint: self.mint,
            burn: self.burn,
        }
    }
}

/// Why the answer of the token registry did not lead to an issued share token, and
/// the refund that is due.
#[derive(PartialEq, Eq, Debug)]
pub struct IssueFailure {
    pub error: VaultError,
    /// The payment that gives the returned issuance cost back to the owner, if any
    /// came back.
    pub refund: Option<Payment>,
}

/// The mathematical content of an [`IssueFailure`].
pub struct IssueFailureView {
    pub error: VaultError,
    pub refund: Option<PaymentView>,
}

impl View for IssueFailure {
    type V = IssueFailureView;

    open spec fn view(&self) -> IssueFailureView {
        IssueFailureView {
            error: self.error,
            refund: match self.refund {
                Some(payment) => Some(payment@),
                None => None,
            },
        }
    }
}

/// The content of an identity that may be absent.
pub open spec fn option_view(token: Option<TokenId>) -> Option<Seq<u8>> {
    match token {
        Some(t) => Some(t@),
        None => None,
    }
}

impl Clone for Issuance {
    fn clone(&self) -> (copy: Self)
        ensures
            copy@ == self@,
    {
        match self {
            Issuance::Uninitialized => Issuance::Uninitialized,
            Issuance::Pending => Issuance::Pending,
            Issuance::Issued(token) => Issuance::Issued(token.clone()),
            Issuance::Failed => Issuance::Failed,
        }
    }
}

} // verus!
