//! A single pooled vault: its record and the rules for changing it.

use crate::access::{authorize, Role};
use crate::amount::Amount;
use crate::error::VaultError;
use crate::identity::{copy_bytes, is_egld_name, Address, TokenId};
use vstd::arithmetic::div_mod::{
    lemma_div_pos_is_pos, lemma_fundamental_div_mod, lemma_mod_pos_bound,
};
use vstd::prelude::*;

verus! {

/// A pool of the native coin, held for a list of beneficiaries on behalf of its creator.
#[derive(PartialEq, Eq, Debug)]
pub struct Vault {
    /// The ordinal under which the vault is kept.
    pub id: u64,
    /// The identity that opened the vault and alone may add users and funds.
    pub creator: Address,
    /// A display label.
    pub name: Vec<u8>,
    /// The beneficiaries, in the order in which they were added; repeats are allowed.
    pub users: Vec<Address>,
    /// The balance held for the beneficiaries together.
    pub amount: Amount,
}

/// The mathematical content of a [`Vault`].
pub struct VaultView {
    pub id: u64,
    pub creator: Address,
    pub name: Seq<u8>,
    pub users: Seq<Address>,
    pub amount: nat,
}

impl View for Vault {
    type V = VaultView;

    open spec fn view(&self) -> VaultView {
        VaultView {
            id: self.id,
            creator: self.creator,
            name: self.name@,
            users: self.users@,
            amount: self.amount@,
        }
    }
}

impl Clone for Vault {
    fn clone(&self) -> (copy: Self)
        ensures
            copy@ == self@,
    {
        let mut users: Vec<Address> = Vec::new();
        let mut i: usize = 0;
        while i < self.users.len()
            invariant
                i <= self.users.len(),
                users@ =~= self.users@.take(i as int),
            decreases self.users.len() - i,
        {
            users.push(self.users[i]);
            i += 1;
        }
        assert(users@ =~= self.users@);
        Vault {
            id: self.id,
            creator: self.creator,
            name: copy_bytes(&self.name),
            users,
            amount: self.amount.clone(),
        }
    }
}

/// An instruction to pay an amount of the native coin to an account.
#[derive(PartialEq, Eq, Debug)]
pub struct Payment {
    pub to: Address,
    pub amount: Amount,
}

/// The mathematical content of a [`Payment`].
pub struct PaymentView {
    pub to: Address,
    pub amount: nat,
}

impl View for Payment {
    type V = PaymentView;

    open spec fn view(&self) -> PaymentView {
        PaymentView { to: self.to, amount: self.amount@ }
    }
}

/// The contents of a list of payments.
pub open spec fn payment_views(payments: Seq<Payment>) -> Seq<PaymentView> {
    payments.map_values(|p: Payment| p@)
}

/// Whether a payment can fund a vault: it is in the native coin and positive.
pub open spec fn funds_vault(token: Seq<u8>, amount: nat) -> bool {
    is_egld_name(token) && amount > 0
}

impl VaultView {
    /// The vault that a valid first payment creates, or the refusal.
    pub open spec fn create(
        id: u64,
        creator: Address,
        token: Seq<u8>,
        initial_amount: nat,
        name: Seq<u8>,
    ) -> Result<VaultView, VaultError> {
        if funds_vault(token, initial_amount) {
            Ok(VaultView { id, creator, name, users: Seq::empty(), amount: initial_amount })
        } else {
            Err(VaultError::InvalidPayment)
        }
    }

    /// The vault after its creator has added a beneficiary, or the refusal.
    pub open spec fn add_user(self, caller: Address, new_user: Address) -> Result<
        VaultView,
        VaultError,
    > {
        if caller == self.creator {
            Ok(VaultView { users: self.users.push(new_user), ..self })
        } else {
            Err(VaultError::Unauthorized)
        }
    }

    /// The vault after its creator has topped it up, or the refusal.
    ///
    /// Authorization is decided before the payment is looked at.
    pub open spec fn add_amount(self, caller: Address, token: Seq<u8>, amount: nat) -> Result<
        VaultView,
        VaultError,
    > {
        if caller != self.creator {
            Err(VaultError::Unauthorized)
        } else if !funds_vault(token, amount) {
            Err(VaultError::InvalidPayment)
        } else {
            Ok(VaultView { amount: self.amount + amount, ..self })
        }
    }

    /// Whether the vault can be distributed, and if not, why.
    pub open spec fn distributable(self) -> Result<(), VaultError> {
        if self.users.len() == 0 {
            Err(VaultError::NoBeneficiaries)
        } else if self.amount == 0 {
            Err(VaultError::NoFunds)
        } else {
            Ok(())
        }
    }

    /// What each beneficiary receives in a distribution: the balance divided by the
    /// number of beneficiaries, rounded down.
    pub open spec fn share(self) -> nat {
        self.amount / self.users.len()
    }

    /// The payments of a distribution: one share to each beneficiary, in the order
    /// in which they were added.
    pub open spec fn payments(self) -> Seq<PaymentView> {
        Seq::new(self.users.len(), |i: int| PaymentView { to: self.users[i], amount: self.share() })
    }

    /// The vault after the first `paid` payments of a distribution have gone through.
    pub open spec fn after_payouts(self, paid: nat) -> VaultView {
        let done = if paid <= self.users.len() {
            paid
        } else {
            self.users.len()
        };
        VaultView { amount: (self.amount - self.share() * done) as nat, ..self }
    }

    /// The vault after a distribution whose payments all went through.
    pub open spec fn distributed(self) -> VaultView {
        self.after_payouts(self.users.len())
    }
}

/// Paying out shares never takes more than the vault holds.
pub proof fn lemma_payouts_within_balance(vault: VaultView, paid: nat)
    requires
        vault.users.len() > 0,
        paid <= vault.users.len(),
    ensures
        vault.share() * paid <= vault.amount,
{
    let n = vault.users.len() as int;
    let a = vault.amount as int;
    lemma_fundamental_div_mod(a, n);
    lemma_mod_pos_bound(a, n);
    lemma_div_pos_is_pos(a, n);
    assert((a / n) * paid <= (a / n) * n) by (nonlinear_arith)
        requires
            a / n >= 0,
            0 <= paid <= n,
    ;
    assert(n * (a / n) == (a / n) * n) by (nonlinear_arith);
}

/// A complete distribution neither makes nor loses funds: the shares paid and what
/// stays in the vault add up to the balance before, and what stays is the remainder
/// of the division, less than one unit for each beneficiary.
pub proof fn law_distribution_conserves_funds(vault: VaultView)
    requires
        vault.distributable().is_ok(),
    ensures
        vault.share() * vault.users.len() + vault.distributed().amount == vault.amount,
        vault.distributed().amount == vault.amount % vault.users.len(),
        vault.distributed().amount < vault.users.len(),
        vault.payments().len() == vault.users.len(),
        forall|i: int|
            0 <= i < vault.users.len() ==> (#[trigger] vault.payments()[i]) == (PaymentView {
                to: vault.users[i],
                amount: vault.share(),
            }),
{
    let n = vault.users.len() as int;
    let a = vault.amount as int;
    lemma_payouts_within_balance(vault, vault.users.len());
    lemma_fundamental_div_mod(a, n);
    lemma_mod_pos_bound(a, n);
    assert(n * (a / n) == (a / n) * n) by (nonlinear_arith);
}

/// A vault without beneficiaries can receive funds but cannot be drained: its
/// distribution is refused, whatever it holds, and its creator can still top it up.
pub proof fn law_empty_vault_keeps_funds(vault: VaultView, token: Seq<u8>, amount: nat)
    requires
        vault.users.len() == 0,
    ensures
        vault.distributable() == Err::<(), VaultError>(VaultError::NoBeneficiaries),
        funds_vault(token, amount) ==> vault.add_amount(vault.creator, token, amount) == Ok::<
            VaultView,
            VaultError,
        >(VaultView { amount: vault.amount + amount, ..vault }),
{
}

/// Funds are accepted from the creator alone: any other caller is refused as
/// unauthorized, whatever the payment.
pub proof fn law_only_creator_adds_funds(
    vault: VaultView,
    caller: Address,
    token: Seq<u8>,
    amount: nat,
)
    ensures
        caller != vault.creator ==> vault.add_amount(caller, token, amount) == Err::<
            VaultView,
            VaultError,
        >(VaultError::Unauthorized),
        vault.add_amount(caller, token, amount) is Ok ==> caller == vault.creator,
{
}

/// The balance grows only by a top-up and shrinks only by a distribution: adding a
/// beneficiary leaves it alone, a top-up adds exactly the payment, and payouts never
/// add to it.
pub proof fn law_balance_moves(
    vault: VaultView,
    caller: Address,
    new_user: Address,
    token: Seq<u8>,
    amount: nat,
    paid: nat,
)
    ensures
        vault.add_user(caller, new_user) matches Ok(after) ==> after.amount == vault.amount,
        vault.add_amount(caller, token, amount) matches Ok(after) ==> after.amount == vault.amount
            + amount,
        vault.after_payouts(paid).amount <= vault.amount,
{
    if vault.users.len() > 0 {
        let done = if paid <= vault.users.len() {
            paid
        } else {
            vault.users.len()
        };
        lemma_payouts_within_balance(vault, done);
    } else {
        assert(vault.share() * 0 == 0) by (nonlinear_arith);
    }
}

impl Vault {
    /// Creates a vault funded by a payment.
    ///
    /// The payment must be in the native coin and positive.
    pub fn create(
        id: u64,
        creator: Address,
        token: &TokenId,
        initial_amount: Amount,
        name: Vec<u8>,
    ) -> (created: Result<Vault, VaultError>)
        ensures
            match created {
                Ok(vault) => VaultView::create(id, creator, token@, initial_amount@, name@) == Ok::<
                    VaultView,
                    VaultError,
                >(vault@),
                Err(e) => VaultView::create(id, creator, token@, initial_amount@, name@) == Err::<
                    VaultView,
                    VaultError,
                >(e),
            },
    {
        if !token.is_egld() || initial_amount.is_zero() {
            return Err(VaultError::InvalidPayment);
        }
        Ok(Vault { id, creator, name, users: Vec::new(), amount: initial_amount })
    }

    /// Adds a beneficiary. Only the creator may do so; repeats are not looked for.
    pub fn add_user(&mut self, caller: Address, new_user: Address) -> (outcome: Result<
        (),
        VaultError,
    >)
        ensures
            match outcome {
                Ok(()) => old(self)@.add_user(caller, new_user) == Ok::<VaultView, VaultError>(
                    final(self)@,
                ),
                Err(e) => old(self)@.add_user(caller, new_user) == Err::<VaultView, VaultError>(e)
                    && final(self)@ == old(self)@,
            },
    {
        match authorize(caller, Role::Creator, self.creator) {
            Ok(()) => {},
            Err(e) => {
                return Err(e);
            },
        }
        self.users.push(new_user);
        Ok(())
    }

    /// Adds funds. Only the creator may do so, with a positive payment in the native coin.
    pub fn add_amount(&mut self, caller: Address, token: &TokenId, amount: &Amount) -> (outcome:
        Result<(), VaultError>)
        ensures
            match outcome {
                Ok(()) => old(self)@.add_amount(caller, token@, amount@) == Ok::<
                    VaultView,
                    VaultError,
                >(final(self)@),
                Err(e) => old(self)@.add_amount(caller, token@, amount@) == Err::<
                    VaultView,
                    VaultError,
                >(e) && final(self)@ == old(self)@,
            },
    {
        match authorize(caller, Role::Creator, self.creator) {
            Ok(()) => {},
            Err(e) => {
                return Err(e);
            },
        }
        if !token.is_egld() || amount.is_zero() {
            return Err(VaultError::InvalidPayment);
        }
        self.amount = self.amount.add(amount);
        Ok(())
    }

    /// Checks that the vault can be distributed and computes the share of each beneficiary.
    fn checked_share(&self) -> (share: Result<Amount, VaultError>)
        ensures
            match share {
                Ok(s) => self@.distributable().is_ok() && s@ == self@.share(),
                Err(e) => self@.distributable() == Err::<(), VaultError>(e),
            },
    {
        if self.users.len() == 0 {
            return Err(VaultError::NoBeneficiaries);
        }
        if self.amount.is_zero() {
            return Err(VaultError::NoFunds);
        }
        let count = Amount::from_u64(self.users.len() as u64);
        let (share, _) = self.amount.div_rem(&count);
        Ok(share)
    }

    /// The payments that a distribution of this vault would make.
    pub fn payout_plan(&self) -> (plan: Result<Vec<Payment>, VaultError>)
        ensures
            match plan {
                Ok(payments) => self@.distributable().is_ok() && payment_views(payments@)
                    == self@.payments(),
                Err(e) => self@.distributable() == Err::<(), VaultError>(e),
            },
    {
        let share = match self.checked_share() {
            Ok(s) => s,
            Err(e) => {
                return Err(e);
            },
        };
        let mut payments: Vec<Payment> = Vec::new();
        let mut i: usize = 0;
        while i < self.users.len()
            invariant
                i <= self.users.len(),
                share@ == self@.share(),
                payments.len() == i,
                forall|k: int|
                    0 <= k < i ==> (#[trigger] payments@[k])@ == (PaymentView {
                        to: self.users@[k],
                        amount: self@.share(),
                    }),
            decreases self.users.len() - i,
        {
            payments.push(Payment { to: self.users[i], amount: share.clone() });
            i += 1;
        }
        assert(payment_views(payments@) =~= self@.payments());
        Ok(payments)
    }

    /// Takes out of the balance what a distribution has paid, given that its first
    /// `paid` payments went through and the next one, if any, failed.
    ///
    /// A vault that cannot be distributed is left as it is. Otherwise the balance drops
    /// by one share for each payment made, and the outcome says whether all were made.
    pub fn settle(&mut self, paid: usize) -> (outcome: Result<(), VaultError>)
        ensures
            match old(self)@.distributable() {
                Ok(()) => final(self)@ == old(self)@.after_payouts(paid as nat) && outcome == (
                if paid >= old(self)@.users.len() {
                    Ok::<(), VaultError>(())
                } else {
                    Err::<(), VaultError>(VaultError::TransferError)
                }),
                Err(e) => final(self)@ == old(self)@ && outcome == Err::<(), VaultError>(e),
            },
    {
        let share = match self.checked_share() {
            Ok(s) => s,
            Err(e) => {
                return Err(e);
            },
        };
        let complete = paid >= self.users.len();
        let done: usize = if complete {
            self.users.len()
        } else {
            paid
        };
        let spent = share.mul(&Amount::from_u64(done as u64));
        proof {
            lemma_payouts_within_balance(self@, done as nat);
        }
        self.amount = self.amount.saturating_sub(&spent);
        if complete {
            Ok(())
        } else {
            Err(VaultError::TransferError)
        }
    }

    /// Distributes the balance: every beneficiary is owed one share, and what the
    /// division leaves over stays in the vault.
    ///
    /// Anybody may ask for a distribution. The payments returned are to be made in order.
    pub fn distribute(&mut self) -> (outcome: Result<Vec<Payment>, VaultError>)
        ensures
            match outcome {
                Ok(payments) => old(self)@.distributable().is_ok() && payment_views(payments@)
                    == old(self)@.payments() && final(self)@ == old(self)@.distributed(),
                Err(e) => old(self)@.distributable() == Err::<(), VaultError>(e) && final(self)@
                    == old(self)@,
            },
    {
        let payments = match self.payout_plan() {
            Ok(p) => p,
            Err(e) => {
                return Err(e);
            },
        };
        match self.settle(self.users.len()) {
            Ok(()) => Ok(payments),
            Err(e) => Err(e),
        }
    }
}

} // verus!
