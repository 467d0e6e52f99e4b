//! The yield vault: its governance parameters, the decay of locked profit, and
//! the issuance of its share token.

use crate::access::{authorize, Role};
use crate::amount::Amount;
use crate::error::VaultError;
use crate::identity::{copy_bytes, is_egld_name, Address, TokenId};
use crate::issuance::{
    option_view, share_token_properties, IssueFailure, IssueRequest, IssueRequestView, Issuance,
    IssuanceView, RoleGrant, RoleGrantView, TokenProperties, SHARE_TOKEN_DECIMALS,
};
use crate::vault::{Payment, PaymentView};
use vstd::arithmetic::div_mod::{
    lemma_div_by_multiple, lemma_div_is_ordered, lemma_fundamental_div_mod, lemma_mod_pos_bound,
};
use vstd::prelude::*;

verus! {

/// The scale of the degradation rate: a decay ratio of this much is a ratio of one.
pub const DEGRADATION_COEFFICIENT: u64 = 1_000_000_000_000_000_000;

/// The number of basis points that make up the whole.
pub const MAX_BPS: u64 = 10_000;

/// The performance fee of a new vault, in basis points.
pub const INITIAL_PERFORMANCE_FEE: u64 = 10_000;

/// The degradation rate of a new vault: a sixth of the coefficient, rounded up, so
/// that a profit is wholly free six units of time after its report and not before.
pub const INITIAL_LOCKED_PROFIT_DEGRADATION: u64 = 166_666_666_666_666_667;

/// Shares owed to a depositor.
#[derive(PartialEq, Eq, Debug)]
pub struct ShareGrant {
    pub to: Address,
    pub shares: Amount,
}

/// The mathematical content of a [`ShareGrant`].
pub struct ShareGrantView {
    pub to: Address,
    pub shares: nat,
}

impl View for ShareGrant {
    type V = ShareGrantView;

    open spec fn view(&self) -> ShareGrantView {
        ShareGrantView { to: self.to, shares: self.shares@ }
    }
}

/// The state of a yield vault.
#[derive(PartialEq, Eq, Debug)]
pub struct YVaultState {
    /// The identity that holds the owner role.
    pub owner: Address,
    /// The vault's own identity.
    pub address: Address,
    /// The asset that the vault accepts and in which it is valued.
    pub token: TokenId,
    /// The state of the share token.
    pub issuance: Issuance,
    /// The name under which the share token was last asked for.
    pub vault_token_name: Vec<u8>,
    /// The symbol shown for the vault.
    pub symbol: Vec<u8>,
    pub management: Address,
    pub guardian: Address,
    /// Where fees are paid to.
    pub rewards: Address,
    /// Realized profit that is not yet free.
    pub locked_profit: Amount,
    /// How fast locked profit becomes free, per unit of time, scaled by the coefficient.
    pub locked_profit_degradation: Amount,
    /// The ceiling on deposits; zero where none is set.
    pub deposit_limit: Amount,
    /// In basis points.
    pub performance_fee: Amount,
    /// In basis points.
    pub management_fee: Amount,
    /// What of the pool is deployed to a strategy and not held as balance.
    pub total_debt: Amount,
    /// When the vault was set up.
    pub activation: u64,
    /// When profit was last reported.
    pub last_report: u64,
}

/// The mathematical content of a [`YVaultState`].
pub struct YVaultView {
    pub owner: Address,
    pub address: Address,
    pub token: Seq<u8>,
    pub issuance: IssuanceView,
    pub vault_token_name: Seq<u8>,
    pub symbol: Seq<u8>,
    pub management: Address,
    pub guardian: Address,
    pub rewards: Address,
    pub locked_profit: nat,
    pub locked_profit_degradation: nat,
    pub deposit_limit: nat,
    pub performance_fee: nat,
    pub management_fee: nat,
    pub total_debt: nat,
    pub activation: u64,
    pub last_report: u64,
}

impl View for YVaultState {
    type V = YVaultView;

    open spec fn view(&self) -> YVaultView {
        YVaultView {
            owner: self.owner,
            address: self.address,
            token: self.token@,
            issuance: self.issuance@,
            vault_token_name: self.vault_token_name@,
            symbol: self.symbol@,
            management: self.management,
            guardian: self.guardian,
            rewards: self.rewards,
            locked_profit: self.locked_profit@,
            locked_profit_degradation: self.locked_profit_degradation@,
            deposit_limit: self.deposit_limit@,
            performance_fee: self.performance_fee@,
            management_fee: self.management_fee@,
            total_debt: self.total_debt@,
            activation: self.activation,
            last_report: self.last_report,
        }
    }
}

/// What of a locked profit is still locked once `elapsed` units of time have passed
/// since it was reported.
///
/// The decay ratio is `elapsed * degradation`, on the scale of the coefficient. Below
/// a ratio of one the locked part is `locked_profit * (1 - ratio)`, where the product
/// is formed in full before the one division, which rounds down. From a ratio of one
/// on nothing is locked.
pub open spec fn locked_profit_after(locked_profit: nat, degradation: nat, elapsed: nat) -> nat {
    let coefficient = DEGRADATION_COEFFICIENT as nat;
    let ratio = elapsed * degradation;
    if ratio < coefficient {
        locked_profit * ((coefficient - ratio) as nat) / coefficient
    } else {
        0
    }
}

/// The shares owed for a deposit of `amount`, or the refusal.
///
/// The first depositor receives one share per unit. After that shares are owed in
/// proportion: `amount * total_supply / free_funds`, rounded down. Outstanding
/// shares with no free funds behind them have no price.
pub open spec fn shares_for_amount(amount: nat, total_supply: nat, free_funds: nat) -> Result<
    nat,
    VaultError,
> {
    if total_supply == 0 {
        Ok(amount)
    } else if free_funds == 0 {
        Err(VaultError::DegenerateShareState)
    } else {
        Ok(amount * total_supply / free_funds)
    }
}

impl YVaultView {
    /// Whether this is what a store reads as before anything was written to it.
    pub open spec fn is_vacant(self) -> bool {
        &&& self.owner.spec_is_zero()
        &&& self.address.spec_is_zero()
        &&& self.token.len() == 0
        &&& self.issuance is Uninitialized
        &&& self.vault_token_name.len() == 0
        &&& self.symbol.len() == 0
        &&& self.management.spec_is_zero()
        &&& self.guardian.spec_is_zero()
        &&& self.rewards.spec_is_zero()
        &&& self.locked_profit == 0
        &&& self.locked_profit_degradation == 0
        &&& self.deposit_limit == 0
        &&& self.performance_fee == 0
        &&& self.management_fee == 0
        &&& self.total_debt == 0
        &&& self.activation == 0
        &&& self.last_report == 0
    }

    /// The state after the vault has been set up at time `now` and its share token
    /// asked for, or the refusal.
    ///
    /// A vault whose share token has been issued is not set up again. Otherwise the
    /// identities, the asset, the names and the two times are as given, the
    /// performance fee and the degradation rate take their initial values, and the
    /// issuance is pending. What the set-up does not name stays as it was: the locked
    /// profit, the deposit limit, the management fee and what is deployed.
    pub open spec fn init(
        self,
        owner: Address,
        address: Address,
        now: u64,
        token: Seq<u8>,
        vault_token_name: Seq<u8>,
        management: Address,
        guardian: Address,
        rewards: Address,
        symbol_override: Seq<u8>,
    ) -> Result<YVaultView, VaultError> {
        if self.issuance is Issued {
            Err(VaultError::AlreadyIssued)
        } else {
            Ok(
                YVaultView {
                    owner,
                    address,
                    token,
                    issuance: IssuanceView::Pending,
                    vault_token_name,
                    symbol: symbol_override,
                    management,
                    guardian,
                    rewards,
                    locked_profit_degradation: INITIAL_LOCKED_PROFIT_DEGRADATION as nat,
                    performance_fee: INITIAL_PERFORMANCE_FEE as nat,
                    activation: now,
                    last_report: now,
                    ..self
                },
            )
        }
    }

    /// The rates lie within their ranges.
    pub open spec fn valid(self) -> bool {
        &&& self.performance_fee <= MAX_BPS
        &&& self.management_fee <= MAX_BPS
        &&& self.locked_profit_degradation <= DEGRADATION_COEFFICIENT
    }

    /// Everything the vault is worth: what it holds of its asset and what it has
    /// deployed.
    pub open spec fn total_assets(self, held_balance: nat) -> nat {
        held_balance + self.total_debt
    }

    /// What of the locked profit is still locked at time `now`.
    pub open spec fn calculate_locked_profit(self, now: u64) -> nat {
        locked_profit_after(
            self.locked_profit,
            self.locked_profit_degradation,
            (now - self.last_report) as nat,
        )
    }

    /// What of the total assets is free at time `now`: all but the locked profit, and
    /// nothing where the locked profit exceeds the total.
    pub open spec fn free_funds(self, held_balance: nat, now: u64) -> nat {
        let total = self.total_assets(held_balance);
        let locked = self.calculate_locked_profit(now);
        if total >= locked {
            (total - locked) as nat
        } else {
            0
        }
    }

    /// The state after the owner has asked for the share token under `name`, or the
    /// refusal. A token that has been issued is not asked for again.
    pub open spec fn create_vault_token(self, caller: Address, name: Seq<u8>) -> Result<
        YVaultView,
        VaultError,
    > {
        if caller != self.owner {
            Err(VaultError::Unauthorized)
        } else if self.issuance is Issued {
            Err(VaultError::AlreadyIssued)
        } else {
            Ok(YVaultView { issuance: IssuanceView::Pending, vault_token_name: name, ..self })
        }
    }

    /// Why the registry's answer does not lead to an issued share token, if it does not.
    ///
    /// `issued` is the identity that the registry issued, or `None` where it refused.
    /// An identity, whatever it is, is turned down only where a share token has been
    /// issued before.
    pub open spec fn issue_refusal(self, issued: Option<Seq<u8>>) -> Option<VaultError> {
        match issued {
            Some(_) => if self.issuance is Issued {
                Some(VaultError::AlreadyIssued)
            } else {
                None
            },
            None => Some(VaultError::IssueError),
        }
    }

    /// The state after the registry has answered.
    ///
    /// While no share token has been issued, the identity that the registry issued
    /// becomes the share token, and a refusal by the registry marks the issuance as
    /// failed. Once a share token has been issued nothing changes.
    pub open spec fn issue_callback(self, issued: Option<Seq<u8>>) -> YVaultView {
        if self.issuance is Issued {
            self
        } else {
            match issued {
                Some(token) => YVaultView { issuance: IssuanceView::Issued(token), ..self },
                None => YVaultView { issuance: IssuanceView::Failed, ..self },
            }
        }
    }

    /// The refund that is due after the registry has answered: where it refused and
    /// the payment that came back is a positive amount of the native coin, that
    /// amount goes to the owner.
    pub open spec fn issue_refund(
        self,
        issued: Option<Seq<u8>>,
        returned_amount: nat,
        returned_token: Seq<u8>,
    ) -> Option<PaymentView> {
        if issued is None && is_egld_name(returned_token) && returned_amount > 0 {
            Some(PaymentView { to: self.owner, amount: returned_amount })
        } else {
            None
        }
    }

    /// The shares owed for a deposit of `amount` at time `now`, or the refusal.
    pub open spec fn issue_shares_for_amount(
        self,
        amount: nat,
        total_supply: nat,
        held_balance: nat,
        now: u64,
    ) -> Result<nat, VaultError> {
        shares_for_amount(amount, total_supply, self.free_funds(held_balance, now))
    }

    pub open spec fn set_symbol(self, caller: Address, name: Seq<u8>) -> Result<
        YVaultView,
        VaultError,
    > {
        if caller != self.owner {
            Err(VaultError::Unauthorized)
        } else {
            Ok(YVaultView { symbol: name, ..self })
        }
    }

    pub open spec fn set_management(self, caller: Address, address: Address) -> Result<
        YVaultView,
        VaultError,
    > {
        if caller != self.owner {
            Err(VaultError::Unauthorized)
        } else {
            Ok(YVaultView { management: address, ..self })
        }
    }

    /// The rewards destination may be neither the vault itself nor the zero identity.
    pub open spec fn set_rewards(self, caller: Address, rewards: Address) -> Result<
        YVaultView,
        VaultError,
    > {
        if caller != self.owner {
            Err(VaultError::Unauthorized)
        } else if rewards == self.address || rewards.spec_is_zero() {
            Err(VaultError::InvalidAddress)
        } else {
            Ok(YVaultView { rewards, ..self })
        }
    }

    /// The degradation rate may not exceed the coefficient.
    pub open spec fn set_locked_profit_degradation(
        self,
        caller: Address,
        degradation: nat,
    ) -> Result<YVaultView, VaultError> {
        if caller != self.owner {
            Err(VaultError::Unauthorized)
        } else if degradation > DEGRADATION_COEFFICIENT {
            Err(VaultError::InvalidParameter)
        } else {
            Ok(YVaultView { locked_profit_degradation: degradation, ..self })
        }
    }

    pub open spec fn set_deposit_limit(self, caller: Address, limit: nat) -> Result<
        YVaultView,
        VaultError,
    > {
        if caller != self.owner {
            Err(VaultError::Unauthorized)
        } else {
            Ok(YVaultView { deposit_limit: limit, ..self })
        }
    }

    /// A fee may not exceed the whole.
    pub open spec fn set_performance_fee(self, caller: Address, fee: nat) -> Result<
        YVaultView,
        VaultError,
    > {
        if caller != self.owner {
            Err(VaultError::Unauthorized)
        } else if fee > MAX_BPS {
            Err(VaultError::InvalidParameter)
        } else {
            Ok(YVaultView { performance_fee: fee, ..self })
        }
    }

    /// A fee may not exceed the whole.
    pub open spec fn set_management_fee(self, caller: Address, fee: nat) -> Result<
        YVaultView,
        VaultError,
    > {
        if caller != self.owner {
            Err(VaultError::Unauthorized)
        } else if fee > MAX_BPS {
            Err(VaultError::InvalidParameter)
        } else {
            Ok(YVaultView { management_fee: fee, ..self })
        }
    }

    pub open spec fn set_guardian(self, caller: Address, address: Address) -> Result<
        YVaultView,
        VaultError,
    > {
        if caller != self.owner {
            Err(VaultError::Unauthorized)
        } else {
            Ok(YVaultView { guardian: address, ..self })
        }
    }
}

/// At the moment of the report the whole profit is locked.
pub proof fn law_locked_profit_starts_whole(locked_profit: nat, degradation: nat)
    ensures
        locked_profit_after(locked_profit, degradation, 0) == locked_profit,
{
    assert(0 * degradation == 0) by (nonlinear_arith);
    lemma_div_by_multiple(locked_profit as int, DEGRADATION_COEFFICIENT as int);
}

/// At the initial rate a profit is wholly free six units of time after its report:
/// from then on nothing is locked, and before that the decay ratio lies below one.
pub proof fn law_initial_rate_unlocks_in_six(locked_profit: nat, elapsed: nat)
    ensures
        elapsed >= 6 ==> locked_profit_after(
            locked_profit,
            INITIAL_LOCKED_PROFIT_DEGRADATION as nat,
            elapsed,
        ) == 0,
        elapsed < 6 ==> elapsed * INITIAL_LOCKED_PROFIT_DEGRADATION < DEGRADATION_COEFFICIENT,
        0 < elapsed < 6 && locked_profit >= 7 ==> 0 < locked_profit_after(
            locked_profit,
            INITIAL_LOCKED_PROFIT_DEGRADATION as nat,
            elapsed,
        ) < locked_profit,
{
    let rate = INITIAL_LOCKED_PROFIT_DEGRADATION as nat;
    let c = DEGRADATION_COEFFICIENT as int;
    if elapsed >= 6 {
        assert(elapsed * rate >= 6 * rate) by (nonlinear_arith)
            requires
                elapsed >= 6,
        ;
    } else if elapsed > 0 && locked_profit >= 7 {
        let left = c - elapsed * rate;
        assert(elapsed * rate == elapsed * 166_666_666_666_666_667);
        assert(c <= 7 * left < 7 * c);
        let product = locked_profit * left;
        assert(c <= product && product < locked_profit * c) by (nonlinear_arith)
            requires
                product == locked_profit * left,
                c <= 7 * left,
                0 < left < c,
                locked_profit >= 7,
                c > 0,
        ;
        lemma_div_is_ordered(c, product, c);
        assert(c / c == 1);
        lemma_div_by_multiple(locked_profit as int, c);
        assert(product / c < locked_profit) by {
            lemma_fundamental_div_mod(product, c);
            lemma_mod_pos_bound(product, c);
            assert(c * (product / c) < c * locked_profit) by (nonlinear_arith)
                requires
                    product == c * (product / c) + product % c,
                    product % c >= 0,
                    product < locked_profit * c,
            ;
            assert(product / c < locked_profit) by (nonlinear_arith)
                requires
                    c * (product / c) < c * locked_profit,
                    c > 0,
            ;
        }
    }
}

/// Once the decay ratio has reached one, nothing is locked.
pub proof fn law_locked_profit_ends_at_zero(locked_profit: nat, degradation: nat, elapsed: nat)
    requires
        elapsed * degradation >= DEGRADATION_COEFFICIENT,
    ensures
        locked_profit_after(locked_profit, degradation, elapsed) == 0,
{
}

/// What is locked never grows with time, and never exceeds the profit reported.
pub proof fn law_locked_profit_never_grows(
    locked_profit: nat,
    degradation: nat,
    earlier: nat,
    later: nat,
)
    requires
        earlier <= later,
    ensures
        locked_profit_after(locked_profit, degradation, later) <= locked_profit_after(
            locked_profit,
            degradation,
            earlier,
        ),
        locked_profit_after(locked_profit, degradation, earlier) <= locked_profit,
{
    let c = DEGRADATION_COEFFICIENT as int;
    let early_ratio = earlier * degradation;
    let late_ratio = later * degradation;
    assert(early_ratio <= late_ratio) by (nonlinear_arith)
        requires
            early_ratio == earlier * degradation,
            late_ratio == later * degradation,
            earlier <= later,
    ;
    if early_ratio < c {
        let early_left = locked_profit * (c - early_ratio);
        assert(0 <= early_left <= locked_profit * c) by (nonlinear_arith)
            requires
                early_left == locked_profit * (c - early_ratio),
                0 <= early_ratio < c,
        ;
        lemma_div_is_ordered(early_left, locked_profit * c, c);
        lemma_div_by_multiple(locked_profit as int, c);
        if late_ratio < c {
            let late_left = locked_profit * (c - late_ratio);
            assert(0 <= late_left <= early_left) by (nonlinear_arith)
                requires
                    late_left == locked_profit * (c - late_ratio),
                    early_left == locked_profit * (c - early_ratio),
                    early_ratio <= late_ratio < c,
            ;
            lemma_div_is_ordered(late_left, early_left, c);
        }
    }
}

/// A setter that succeeds is read back: afterwards the state holds the value just
/// set, and every other part of the state is as before.
pub proof fn law_setters_round_trip(
    state: YVaultView,
    caller: Address,
    name: Seq<u8>,
    address: Address,
    amount: nat,
)
    ensures
        state.set_symbol(caller, name) matches Ok(after) ==> after.symbol == name && after == (
        YVaultView { symbol: name, ..state }),
        state.set_management(caller, address) matches Ok(after) ==> after.management == address
            && after == (YVaultView { management: address, ..state }),
        state.set_rewards(caller, address) matches Ok(after) ==> after.rewards == address && after
            == (YVaultView { rewards: address, ..state }),
        state.set_locked_profit_degradation(caller, amount) matches Ok(after)
            ==> after.locked_profit_degradation == amount && after == (YVaultView {
            locked_profit_degradation: amount,
            ..state
        }),
        state.set_deposit_limit(caller, amount) matches Ok(after) ==> after.deposit_limit == amount
            && after == (YVaultView { deposit_limit: amount, ..state }),
        state.set_performance_fee(caller, amount) matches Ok(after) ==> after.performance_fee
            == amount && after == (YVaultView { performance_fee: amount, ..state }),
        state.set_management_fee(caller, amount) matches Ok(after) ==> after.management_fee
            == amount && after == (YVaultView { management_fee: amount, ..state }),
        state.set_guardian(caller, address) matches Ok(after) ==> after.guardian == address
            && after == (YVaultView { guardian: address, ..state }),
{
}

/// When a setter succeeds: the caller is the owner and the value lies in its range,
/// and not otherwise.
pub proof fn law_setters_accept(
    state: YVaultView,
    caller: Address,
    name: Seq<u8>,
    address: Address,
    amount: nat,
)
    ensures
        state.set_symbol(caller, name) is Ok <==> caller == state.owner,
        state.set_management(caller, address) is Ok <==> caller == state.owner,
        state.set_rewards(caller, address) is Ok <==> caller == state.owner && address
            != state.address && !address.spec_is_zero(),
        state.set_locked_profit_degradation(caller, amount) is Ok <==> caller == state.owner
            && amount <= DEGRADATION_COEFFICIENT,
        state.set_deposit_limit(caller, amount) is Ok <==> caller == state.owner,
        state.set_performance_fee(caller, amount) is Ok <==> caller == state.owner && amount
            <= MAX_BPS,
        state.set_management_fee(caller, amount) is Ok <==> caller == state.owner && amount
            <= MAX_BPS,
        state.set_guardian(caller, address) is Ok <==> caller == state.owner,
{
}

/// Every operation keeps the rates within their ranges, the set-up among them.
pub proof fn law_operations_keep_rates_valid(
    state: YVaultView,
    caller: Address,
    name: Seq<u8>,
    address: Address,
    amount: nat,
    issued: Option<Seq<u8>>,
    now: u64,
)
    requires
        state.valid(),
    ensures
        state.init(address, address, now, name, name, address, address, address, name) matches Ok(
            after,
        ) ==> after.valid(),
        state.create_vault_token(caller, name) matches Ok(after) ==> after.valid(),
        state.issue_callback(issued).valid(),
        state.set_symbol(caller, name) matches Ok(after) ==> after.valid(),
        state.set_management(caller, address) matches Ok(after) ==> after.valid(),
        state.set_rewards(caller, address) matches Ok(after) ==> after.valid(),
        state.set_locked_profit_degradation(caller, amount) matches Ok(after) ==> after.valid(),
        state.set_deposit_limit(caller, amount) matches Ok(after) ==> after.valid(),
        state.set_performance_fee(caller, amount) matches Ok(after) ==> after.valid(),
        state.set_management_fee(caller, amount) matches Ok(after) ==> after.valid(),
        state.set_guardian(caller, address) matches Ok(after) ==> after.valid(),
{
}

/// While no share token has been issued the issuance moves by these steps only:
/// asking for the token makes it pending, the identity that the registry issued,
/// whatever it is, becomes the share token, and a refusal by the registry makes the
/// issuance failed; a failed issuance may be asked for again.
pub proof fn law_issuance_steps(
    state: YVaultView,
    caller: Address,
    name: Seq<u8>,
    issued: Option<Seq<u8>>,
)
    requires
        !(state.issuance is Issued),
    ensures
        state.create_vault_token(caller, name) is Ok <==> caller == state.owner,
        state.create_vault_token(caller, name) matches Ok(after) ==> after.issuance
            == IssuanceView::Pending && after.vault_token_name == name,
        issued matches Some(token) ==> state.issue_callback(issued) == (YVaultView {
            issuance: IssuanceView::Issued(token),
            ..state
        }) && state.issue_refusal(issued) is None,
        issued is None ==> state.issue_callback(issued).issuance == IssuanceView::Failed
            && state.issue_refusal(issued) == Some(VaultError::IssueError),
{
}

/// A share token, once issued, stays: it is not asked for again, the vault is not
/// set up again, no answer of the registry replaces or removes it, and no setter
/// touches it.
pub proof fn law_issued_token_stays(
    state: YVaultView,
    caller: Address,
    name: Seq<u8>,
    address: Address,
    amount: nat,
    issued: Option<Seq<u8>>,
    now: u64,
)
    requires
        state.issuance is Issued,
    ensures
        state.create_vault_token(caller, name) is Err,
        caller == state.owner ==> state.create_vault_token(caller, name) == Err::<
            YVaultView,
            VaultError,
        >(VaultError::AlreadyIssued),
        state.init(address, address, now, name, name, address, address, address, name) == Err::<
            YVaultView,
            VaultError,
        >(VaultError::AlreadyIssued),
        state.issue_callback(issued) == state,
        issued is Some ==> state.issue_refusal(issued) == Some(VaultError::AlreadyIssued),
        issued is None ==> state.issue_refusal(issued) == Some(VaultError::IssueError),
        state.set_symbol(caller, name) matches Ok(after) ==> after.issuance == state.issuance,
        state.set_management(caller, address) matches Ok(after) ==> after.issuance
            == state.issuance,
        state.set_rewards(caller, address) matches Ok(after) ==> after.issuance == state.issuance,
        state.set_locked_profit_degradation(caller, amount) matches Ok(after) ==> after.issuance
            == state.issuance,
        state.set_deposit_limit(caller, amount) matches Ok(after) ==> after.issuance
            == state.issuance,
        state.set_performance_fee(caller, amount) matches Ok(after) ==> after.issuance
            == state.issuance,
        state.set_management_fee(caller, amount) matches Ok(after) ==> after.issuance
            == state.issuance,
        state.set_guardian(caller, address) matches Ok(after) ==> after.issuance == state.issuance,
{
}

/// Free funds and what is locked never add up to more than the total assets, and
/// where the locked profit does not exceed the total they add up to exactly that.
pub proof fn law_free_funds_within_total(state: YVaultView, held_balance: nat, now: u64)
    ensures
        state.free_funds(held_balance, now) <= state.total_assets(held_balance),
        state.calculate_locked_profit(now) <= state.total_assets(held_balance)
            ==> state.free_funds(held_balance, now) + state.calculate_locked_profit(now)
            == state.total_assets(held_balance),
        state.calculate_locked_profit(now) > state.total_assets(held_balance) ==> state.free_funds(
            held_balance,
            now,
        ) == 0,
{
}

/// The first depositor is given one share per unit, and shares are never priced
/// while some are outstanding and no free funds back them.
pub proof fn law_share_price(amount: nat, total_supply: nat, free_funds: nat)
    ensures
        total_supply == 0 ==> shares_for_amount(amount, total_supply, free_funds) == Ok::<
            nat,
            VaultError,
        >(amount),
        shares_for_amount(amount, total_supply, free_funds) is Err <==> total_supply > 0
            && free_funds == 0,
        total_supply > 0 && free_funds == total_supply ==> shares_for_amount(
            amount,
            total_supply,
            free_funds,
        ) == Ok::<nat, VaultError>(amount),
{
    if total_supply > 0 && free_funds == total_supply {
        lemma_div_by_multiple(amount as int, total_supply as int);
    }
}

impl Clone for YVaultState {
    fn clone(&self) -> (copy: Self)
        ensures
            copy@ == self@,
    {
        YVaultState {
            owner: self.owner,
            address: self.address,
            token: self.token.clone(),
            issuance: self.issuance.clone(),
            vault_token_name: copy_bytes(&self.vault_token_name),
            symbol: copy_bytes(&self.symbol),
            management: self.management,
            guardian: self.guardian,
            rewards: self.rewards,
            locked_profit: self.locked_profit.clone(),
            locked_profit_degradation: self.locked_profit_degradation.clone(),
            deposit_limit: self.deposit_limit.clone(),
            performance_fee: self.performance_fee.clone(),
            management_fee: self.management_fee.clone(),
            total_debt: self.total_debt.clone(),
            activation: self.activation,
            last_report: self.last_report,
        }
    }
}

impl YVaultState {
    /// The state that a store reads as before anything was written to it.
    pub fn vacant() -> (state: YVaultState)
        ensures
            state@.is_vacant(),
    {
        YVaultState {
            owner: Address::zero(),
            address: Address::zero(),
            token: TokenId::egld(),
            issuance: Issuance::Uninitialized,
            vault_token_name: Vec::new(),
            symbol: Vec::new(),
            management: Address::zero(),
            guardian: Address::zero(),
            rewards: Address::zero(),
            locked_profit: Amount::zero(),
            locked_profit_degradation: Amount::zero(),
            deposit_limit: Amount::zero(),
            performance_fee: Amount::zero(),
            management_fee: Amount::zero(),
            total_debt: Amount::zero(),
            activation: 0,
            last_report: 0,
        }
    }

    /// Decides whether the rates lie within their ranges.
    pub fn is_valid(&self) -> (valid: bool)
        ensures
            valid == self@.valid(),
    {
        let whole = Amount::from_u64(MAX_BPS);
        self.performance_fee.le(&whole) && self.management_fee.le(&whole)
            && self.locked_profit_degradation.le(&Amount::from_u64(DEGRADATION_COEFFICIENT))
    }

    /// Whether the share token has been issued.
    pub fn is_issued(&self) -> (issued: bool)
        ensures
            issued == (self@.issuance is Issued),
    {
        match &self.issuance {
            Issuance::Issued(_) => true,
            _ => false,
        }
    }

    /// Records that the share token is being asked for and makes up the request.
    fn request_token(
        &mut self,
        issue_cost: Amount,
        vault_token_name: Vec<u8>,
        vault_token_ticker: Vec<u8>,
    ) -> (request: IssueRequest)
        ensures
            final(self)@ == (YVaultView {
                issuance: IssuanceView::Pending,
                vault_token_name: vault_token_name@,
                ..old(self)@
            }),
            request@ == (IssueRequestView {
                issue_cost: issue_cost@,
                token_name: vault_token_name@,
                token_ticker: vault_token_ticker@,
                properties: share_token_properties(),
            }),
    {
        let token_name = copy_bytes(&vault_token_name);
        self.vault_token_name = vault_token_name;
        self.issuance = Issuance::Pending;
        IssueRequest {
            issue_cost,
            token_name,
            token_ticker: vault_token_ticker,
            properties: TokenProperties {
                num_decimals: SHARE_TOKEN_DECIMALS,
                can_freeze: false,
                can_wipe: false,
                can_pause: false,
                can_change_owner: false,
                can_upgrade: false,
                can_add_special_roles: true,
            },
        }
    }
}

/// The yield vault.
///
/// An implementation supplies the store that keeps the vault's state. The operations
/// are provided on top of it. Each reads the state, decides, and writes only once
/// every check has passed.
pub trait YVault {
    /// What the store holds.
    spec fn state(&self) -> YVaultView;

    /// Reads the state.
    fn load(&self) -> (state: YVaultState)
        ensures
            state@ == self.state(),
    ;

    /// Writes the state.
    fn store(&mut self, state: YVaultState)
        ensures
            final(self).state() == state@,
    ;

    /// Sets up the vault at time `now` and asks for its share token.
    ///
    /// A vault whose share token has been issued is not set up again: the call is
    /// refused and nothing is written. Otherwise the performance fee starts at the
    /// whole and the degradation rate at its initial value, while the locked profit,
    /// the deposit limit, the management fee and what is deployed stay as the store
    /// holds them, which is zero in a store that was never written to. The request
    /// returned is to be sent to the token registry, whose answer goes to
    /// [`YVault::issue_callback`].
    fn init(
        &mut self,
        owner: Address,
        address: Address,
        now: u64,
        token: TokenId,
        issue_cost: Amount,
        vault_token_name: Vec<u8>,
        vault_token_ticker: Vec<u8>,
        management: Address,
        guardian: Address,
        rewards: Address,
        symbol_override: Vec<u8>,
    ) -> (outcome: Result<IssueRequest, VaultError>)
        ensures
            match outcome {
                Ok(request) => old(self).state().init(
                    owner,
                    address,
                    now,
                    token@,
                    vault_token_name@,
                    management,
                    guardian,
                    rewards,
                    symbol_override@,
                ) == Ok::<YVaultView, VaultError>(final(self).state()) && request@ == (
                IssueRequestView {
                    issue_cost: issue_cost@,
                    token_name: vault_token_name@,
                    token_ticker: vault_token_ticker@,
                    properties: share_token_properties(),
                }),
                Err(e) => old(self).state().init(
                    owner,
                    address,
                    now,
                    token@,
                    vault_token_name@,
                    management,
                    guardian,
                    rewards,
                    symbol_override@,
                ) == Err::<YVaultView, VaultError>(e) && final(self).state() == old(
                    self,
                ).state(),
            },
    {
        let mut state = self.load();
        if state.is_issued() {
            return Err(VaultError::AlreadyIssued);
        }
        state.owner = owner;
        state.address = address;
        state.token = token;
        state.symbol = symbol_override;
        state.management = management;
        state.guardian = guardian;
        state.rewards = rewards;
        state.performance_fee = Amount::from_u64(INITIAL_PERFORMANCE_FEE);
        state.last_report = now;
        state.activation = now;
        state.locked_profit_degradation = Amount::from_u64(INITIAL_LOCKED_PROFIT_DEGRADATION);
        let request = state.request_token(issue_cost, vault_token_name, vault_token_ticker);
        self.store(state);
        Ok(request)
    }

    /// Asks for the share token. Owner only, and only while none has been issued.
    ///
    /// The request returned is to be sent to the token registry, whose answer goes to
    /// [`YVault::issue_callback`].
    fn create_vault_token(
        &mut self,
        caller: Address,
        issue_cost: Amount,
        vault_token_name: Vec<u8>,
        vault_token_ticker: Vec<u8>,
    ) -> (outcome: Result<IssueRequest, VaultError>)
        ensures
            match outcome {
                Ok(request) => old(self).state().create_vault_token(caller, vault_token_name@)
                    == Ok::<YVaultView, VaultError>(final(self).state()) && request@ == (
                IssueRequestView {
                    issue_cost: issue_cost@,
                    token_name: vault_token_name@,
                    token_ticker: vault_token_ticker@,
                    properties: share_token_properties(),
                }),
                Err(e) => old(self).state().create_vault_token(caller, vault_token_name@) == Err::<
                    YVaultView,
                    VaultError,
                >(e) && final(self).state() == old(self).state(),
            },
    {
        let mut state = self.load();
        match authorize(caller, Role::Owner, state.owner) {
            Ok(()) => {},
            Err(e) => {
                return Err(e);
            },
        }
        if state.is_issued() {
            return Err(VaultError::AlreadyIssued);
        }
        let request = state.request_token(issue_cost, vault_token_name, vault_token_ticker);
        self.store(state);
        Ok(request)
    }

    /// Takes the answer of the token registry to a request for the share token.
    ///
    /// `issued` is the identity that the registry issued, or `None` where it refused;
    /// `returned_amount` of `returned_token` is the payment that came with the answer.
    /// While no share token has been issued, the identity that the registry issued,
    /// whatever it is, becomes the share token, and the grant returned, of the roles
    /// to mint and to burn it to the vault itself, is to be sent to the registry.
    /// Otherwise the failure says why, and carries the refund to make.
    fn issue_callback(
        &mut self,
        issued: Option<TokenId>,
        returned_amount: Amount,
        returned_token: &TokenId,
    ) -> (outcome: Result<RoleGrant, IssueFailure>)
        ensures
            final(self).state() == old(self).state().issue_callback(option_view(issued)),
            match outcome {
                Ok(grant) => old(self).state().issue_refusal(option_view(issued)) is None
                    && grant@ == (RoleGrantView {
                    address: old(self).state().address,
                    token: issued.unwrap()@,
                    mint: true,
                    burn: true,
                }),
                Err(failure) => old(self).state().issue_refusal(option_view(issued)) == Some(
                    failure@.error,
                ) && failure@.refund == old(self).state().issue_refund(
                    option_view(issued),
                    returned_amount@,
                    returned_token@,
                ),
            },
    {
        let mut state = self.load();
        match issued {
            Some(token) => {
                if state.is_issued() {
                    return Err(IssueFailure { error: VaultError::AlreadyIssued, refund: None });
                }
                let grant = RoleGrant {
                    address: state.address,
                    token: token.clone(),
                    mint: true,
                    burn: true,
                };
                state.issuance = Issuance::Issued(token);
                self.store(state);
                Ok(grant)
            },
            None => {
                let refund = if returned_token.is_egld() && !returned_amount.is_zero() {
                    Some(Payment { to: state.owner, amount: returned_amount })
                } else {
                    None
                };
                if !state.is_issued() {
                    state.issuance = Issuance::Failed;
                    self.store(state);
                }
                Err(IssueFailure { error: VaultError::IssueError, refund })
            },
        }
    }

    /// Changes the symbol shown for the vault. Owner only.
    fn set_symbol(
        &mut self,
        caller: Address,
        name: Vec<u8>,
    ) -> (outcome: Result<(), VaultError>)
        ensures
            match outcome {
                Ok(()) => old(self).state().set_symbol(caller, name@) == Ok::<
                    YVaultView,
                    VaultError,
                >(final(self).state()),
                Err(e) => old(self).state().set_symbol(caller, name@) == Err::<
                    YVaultView,
                    VaultError,
                >(e) && final(self).state() == old(self).state(),
            },
    {
        let mut state = self.load();
        match authorize(caller, Role::Owner, state.owner) {
            Ok(()) => {},
            Err(e) => {
                return Err(e);
            },
        }
        state.symbol = name;
        self.store(state);
        Ok(())
    }

    /// Names the management identity. Owner only.
    fn set_management(
        &mut self,
        caller: Address,
        address: Address,
    ) -> (outcome: Result<(), VaultError>)
        ensures
            match outcome {
                Ok(()) => old(self).state().set_management(caller, address) == Ok::<
                    YVaultView,
                    VaultError,
                >(final(self).state()),
                Err(e) => old(self).state().set_management(caller, address) == Err::<
                    YVaultView,
                    VaultError,
                >(e) && final(self).state() == old(self).state(),
            },
    {
        let mut state = self.load();
        match authorize(caller, Role::Owner, state.owner) {
            Ok(()) => {},
            Err(e) => {
                return Err(e);
            },
        }
        state.management = address;
        self.store(state);
        Ok(())
    }

    /// Names the destination of fees. Owner only; the destination may be neither the
    /// vault itself nor the zero identity.
    fn set_rewards(
        &mut self,
        caller: Address,
        rewards: Address,
    ) -> (outcome: Result<(), VaultError>)
        ensures
            match outcome {
                Ok(()) => old(self).state().set_rewards(caller, rewards) == Ok::<
                    YVaultView,
                    VaultError,
                >(final(self).state()),
                Err(e) => old(self).state().set_rewards(caller, rewards) == Err::<
                    YVaultView,
                    VaultError,
                >(e) && final(self).state() == old(self).state(),
            },
    {
        let mut state = self.load();
        match authorize(caller, Role::Owner, state.owner) {
            Ok(()) => {},
            Err(e) => {
                return Err(e);
            },
        }
        if rewards.same(&state.address) || rewards.is_zero() {
            return Err(VaultError::InvalidAddress);
        }
        state.rewards = rewards;
        self.store(state);
        Ok(())
    }

    /// Sets the rate at which locked profit becomes free. Owner only; the rate may not
    /// exceed the coefficient.
    fn set_locked_profit_degradation(
        &mut self,
        caller: Address,
        degradation: Amount,
    ) -> (outcome: Result<(), VaultError>)
        ensures
            match outcome {
                Ok(()) => old(self).state().set_locked_profit_degradation(caller, degradation@)
                    == Ok::<YVaultView, VaultError>(final(self).state()),
                Err(e) => old(self).state().set_locked_profit_degradation(caller, degradation@)
                    == Err::<YVaultView, VaultError>(e) && final(self).state() == old(
                    self,
                ).state(),
            },
    {
        let mut state = self.load();
        match authorize(caller, Role::Owner, state.owner) {
            Ok(()) => {},
            Err(e) => {
                return Err(e);
            },
        }
        if !degradation.le(&Amount::from_u64(DEGRADATION_COEFFICIENT)) {
            return Err(VaultError::InvalidParameter);
        }
        state.locked_profit_degradation = degradation;
        self.store(state);
        Ok(())
    }

    /// Sets the ceiling on deposits. Owner only.
    fn set_deposit_limit(
        &mut self,
        caller: Address,
        limit: Amount,
    ) -> (outcome: Result<(), VaultError>)
        ensures
            match outcome {
                Ok(()) => old(self).state().set_deposit_limit(caller, limit@) == Ok::<
                    YVaultView,
                    VaultError,
                >(final(self).state()),
                Err(e) => old(self).state().set_deposit_limit(caller, limit@) == Err::<
                    YVaultView,
                    VaultError,
                >(e) && final(self).state() == old(self).state(),
            },
    {
        let mut state = self.load();
        match authorize(caller, Role::Owner, state.owner) {
            Ok(()) => {},
            Err(e) => {
                return Err(e);
            },
        }
        state.deposit_limit = limit;
        self.store(state);
        Ok(())
    }

    /// Sets the performance fee, in basis points. Owner only; at most the whole.
    fn set_performance_fee(
        &mut self,
        caller: Address,
        fee: Amount,
    ) -> (outcome: Result<(), VaultError>)
        ensures
            match outcome {
                Ok(()) => old(self).state().set_performance_fee(caller, fee@) == Ok::<
                    YVaultView,
                    VaultError,
                >(final(self).state()),
                Err(e) => old(self).state().set_performance_fee(caller, fee@) == Err::<
                    YVaultView,
                    VaultError,
                >(e) && final(self).state() == old(self).state(),
            },
    {
        let mut state = self.load();
        match authorize(caller, Role::Owner, state.owner) {
            Ok(()) => {},
            Err(e) => {
                return Err(e);
            },
        }
        if !fee.le(&Amount::from_u64(MAX_BPS)) {
            return Err(VaultError::InvalidParameter);
        }
        state.performance_fee = fee;
        self.store(state);
        Ok(())
    }

    /// Sets the management fee, in basis points. Owner only; at most the whole.
    fn set_management_fee(
        &mut self,
        caller: Address,
        fee: Amount,
    ) -> (outcome: Result<(), VaultError>)
        ensures
            match outcome {
                Ok(()) => old(self).state().set_management_fee(caller, fee@) == Ok::<
                    YVaultView,
                    VaultError,
                >(final(self).state()),
                Err(e) => old(self).state().set_management_fee(caller, fee@) == Err::<
                    YVaultView,
                    VaultError,
                >(e) && final(self).state() == old(self).state(),
            },
    {
        let mut state = self.load();
        match authorize(caller, Role::Owner, state.owner) {
            Ok(()) => {},
            Err(e) => {
                return Err(e);
            },
        }
        if !fee.le(&Amount::from_u64(MAX_BPS)) {
            return Err(VaultError::InvalidParameter);
        }
        state.management_fee = fee;
        self.store(state);
        Ok(())
    }

    /// Names the guardian identity. Owner only.
    fn set_guardian(
        &mut self,
        caller: Address,
        address: Address,
    ) -> (outcome: Result<(), VaultError>)
        ensures
            match outcome {
                Ok(()) => old(self).state().set_guardian(caller, address) == Ok::<
                    YVaultView,
                    VaultError,
                >(final(self).state()),
                Err(e) => old(self).state().set_guardian(caller, address) == Err::<
                    YVaultView,
                    VaultError,
                >(e) && final(self).state() == old(self).state(),
            },
    {
        let mut state = self.load();
        match authorize(caller, Role::Owner, state.owner) {
            Ok(()) => {},
            Err(e) => {
                return Err(e);
            },
        }
        state.guardian = address;
        self.store(state);
        Ok(())
    }

    /// The asset that the vault accepts.
    fn token(&self) -> (value: TokenId)
        ensures
            value@ == self.state().token,
    {
        self.load().token
    }

    /// How far the issuance of the share token has come, with the token once it is issued.
    fn issuance(&self) -> (value: Issuance)
        ensures
            value@ == self.state().issuance,
    {
        self.load().issuance
    }

    /// The symbol shown for the vault.
    fn symbol(&self) -> (value: Vec<u8>)
        ensures
            value@ == self.state().symbol,
    {
        self.load().symbol
    }

    /// The management identity.
    fn management(&self) -> (value: Address)
        ensures
            value == self.state().management,
    {
        self.load().management
    }

    /// The guardian identity.
    fn guardian(&self) -> (value: Address)
        ensures
            value == self.state().guardian,
    {
        self.load().guardian
    }

    /// The destination of fees.
    fn rewards(&self) -> (value: Address)
        ensures
            value == self.state().rewards,
    {
        self.load().rewards
    }

    /// The profit locked at the last report.
    fn locked_profit(&self) -> (value: Amount)
        ensures
            value@ == self.state().locked_profit,
    {
        self.load().locked_profit
    }

    /// The rate at which locked profit becomes free.
    fn locked_profit_degradation(&self) -> (value: Amount)
        ensures
            value@ == self.state().locked_profit_degradation,
    {
        self.load().locked_profit_degradation
    }

    /// The ceiling on deposits; zero where none is set.
    fn deposit_limit(&self) -> (value: Amount)
        ensures
            value@ == self.state().deposit_limit,
    {
        self.load().deposit_limit
    }

    /// The performance fee, in basis points.
    fn performance_fee(&self) -> (value: Amount)
        ensures
            value@ == self.state().performance_fee,
    {
        self.load().performance_fee
    }

    /// The management fee, in basis points.
    fn management_fee(&self) -> (value: Amount)
        ensures
            value@ == self.state().management_fee,
    {
        self.load().management_fee
    }

    /// What of the pool is deployed to a strategy.
    fn total_debt(&self) -> (value: Amount)
        ensures
            value@ == self.state().total_debt,
    {
        self.load().total_debt
    }

    /// When the vault was set up.
    fn activation(&self) -> (value: u64)
        ensures
            value == self.state().activation,
    {
        self.load().activation
    }

    /// When profit was last reported.
    fn last_report(&self) -> (value: u64)
        ensures
            value == self.state().last_report,
    {
        self.load().last_report
    }

    /// Everything the vault is worth, given what it holds of its asset.
    fn total_assets(&self, held_balance: &Amount) -> (total: Amount)
        ensures
            total@ == self.state().total_assets(held_balance@),
    {
        let state = self.load();
        held_balance.add(&state.total_debt)
    }

    /// What of the locked profit is still locked at time `now`, which may not lie
    /// before the last report.
    fn calculate_locked_profit(&self, now: u64) -> (locked: Amount)
        requires
            now >= self.state().last_report,
        ensures
            locked@ == self.state().calculate_locked_profit(now),
    {
        let state = self.load();
        let coefficient = Amount::from_u64(DEGRADATION_COEFFICIENT);
        let elapsed = Amount::from_u64(now - state.last_report);
        let ratio = elapsed.mul(&state.locked_profit_degradation);
        if ratio.lt(&coefficient) {
            let remaining = coefficient.saturating_sub(&ratio);
            let (locked, _) = state.locked_profit.mul(&remaining).div_rem(&coefficient);
            locked
        } else {
            Amount::zero()
        }
    }

    /// What of the total assets is free at time `now`, which may not lie before the
    /// last report.
    fn free_funds(&self, held_balance: &Amount, now: u64) -> (free: Amount)
        requires
            now >= self.state().last_report,
        ensures
            free@ == self.state().free_funds(held_balance@, now),
    {
        let total = self.total_assets(held_balance);
        let locked = self.calculate_locked_profit(now);
        total.saturating_sub(&locked)
    }

    /// The shares owed to `to` for a deposit of `amount` at time `now`, given the
    /// shares outstanding and what the vault holds of its asset. The time may not lie
    /// before the last report.
    fn issue_shares_for_amount(
        &self,
        to: Address,
        amount: &Amount,
        total_supply: &Amount,
        held_balance: &Amount,
        now: u64,
    ) -> (outcome: Result<ShareGrant, VaultError>)
        requires
            now >= self.state().last_report,
        ensures
            match outcome {
                Ok(grant) => self.state().issue_shares_for_amount(
                    amount@,
                    total_supply@,
                    held_balance@,
                    now,
                ) == Ok::<nat, VaultError>(grant@.shares) && grant@.to == to,
                Err(e) => self.state().issue_shares_for_amount(
                    amount@,
                    total_supply@,
                    held_balance@,
                    now,
                ) == Err::<nat, VaultError>(e),
            },
    {
        if total_supply.is_zero() {
            return Ok(ShareGrant { to, shares: amount.clone() });
        }
        let free = self.free_funds(held_balance, now);
        if free.is_zero() {
            return Err(VaultError::DegenerateShareState);
        }
        let (shares, _) = amount.mul(total_supply).div_rem(&free);
        Ok(ShareGrant { to, shares })
    }
}

/// A state held in memory is its own store.
impl YVault for YVaultState {
    open spec fn state(&self) -> YVaultView {
        self@
    }

    fn load(&self) -> (state: YVaultState) {
        self.clone()
    }

    fn store(&mut self, state: YVaultState) {
        *self = state;
    }
}

} // verus!
