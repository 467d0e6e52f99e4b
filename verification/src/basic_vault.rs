//! The registry of pooled vaults, over a ledger that keeps their records.

use crate::amount::Amount;
use crate::error::VaultError;
use crate::identity::{is_egld_name, Address, TokenId};
use crate::vault::{payment_views, Payment, PaymentView, Vault, VaultView};
use std::collections::HashMap;
use vstd::prelude::*;

verus! {

/// What a ledger of vaults holds: a counter and the records, each under its ordinal.
pub struct LedgerView {
    /// The number of vaults opened so far, which is the ordinal of the next one.
    pub total_vaults: u64,
    pub vaults: Map<u64, VaultView>,
}

impl LedgerView {
    /// The ledger at genesis.
    pub open spec fn empty() -> LedgerView {
        LedgerView { total_vaults: 0, vaults: Map::empty() }
    }

    /// The ordinals in use are exactly those below the counter, and every vault is
    /// kept under its own ordinal.
    pub open spec fn valid(self) -> bool {
        &&& forall|id: u64| #[trigger] self.vaults.contains_key(id) <==> id < self.total_vaults
        &&& forall|id: u64| #[trigger] self.vaults.contains_key(id) ==> self.vaults[id].id == id
    }

    /// The vault kept under `id`, if there is one.
    pub open spec fn vault(self, id: u64) -> Result<VaultView, VaultError> {
        if self.vaults.contains_key(id) {
            Ok(self.vaults[id])
        } else {
            Err(VaultError::NotFound)
        }
    }

    /// The ledger with `vault` written under its ordinal.
    pub open spec fn with_vault(self, vault: VaultView) -> LedgerView {
        LedgerView { vaults: self.vaults.insert(vault.id, vault), ..self }
    }

    /// The ledger after a vault has been opened under the next ordinal, or the refusal.
    pub open spec fn create_vault(
        self,
        caller: Address,
        token: Seq<u8>,
        initial_amount: nat,
        name: Seq<u8>,
    ) -> Result<LedgerView, VaultError> {
        match VaultView::create(self.total_vaults, caller, token, initial_amount, name) {
            Ok(vault) => Ok(
                LedgerView {
                    total_vaults: (self.total_vaults + 1) as u64,
                    vaults: self.vaults.insert(self.total_vaults, vault),
                },
            ),
            Err(e) => Err(e),
        }
    }

    /// The ledger after a beneficiary has been added to a vault, or the refusal.
    pub open spec fn add_user(self, caller: Address, vault_id: u64, new_user: Address) -> Result<
        LedgerView,
        VaultError,
    > {
        match self.vault(vault_id) {
            Ok(vault) => match vault.add_user(caller, new_user) {
                Ok(changed) => Ok(self.with_vault(changed)),
                Err(e) => Err(e),
            },
            Err(e) => Err(e),
        }
    }

    /// The ledger after funds have been added to a vault, or the refusal.
    pub open spec fn add_amount(
        self,
        caller: Address,
        token: Seq<u8>,
        amount: nat,
        vault_id: u64,
    ) -> Result<LedgerView, VaultError> {
        match self.vault(vault_id) {
            Ok(vault) => match vault.add_amount(caller, token, amount) {
                Ok(changed) => Ok(self.with_vault(changed)),
                Err(e) => Err(e),
            },
            Err(e) => Err(e),
        }
    }

    /// The payments that distributing a vault makes, or the refusal.
    pub open spec fn payments(self, vault_id: u64) -> Result<Seq<PaymentView>, VaultError> {
        match self.vault(vault_id) {
            Ok(vault) => match vault.distributable() {
                Ok(()) => Ok(vault.payments()),
                Err(e) => Err(e),
            },
            Err(e) => Err(e),
        }
    }

    /// The ledger after the first `paid` payments of a vault's distribution have gone
    /// through; the ledger itself where the distribution is refused.
    pub open spec fn after_payouts(self, vault_id: u64, paid: nat) -> LedgerView {
        match self.payments(vault_id) {
            Ok(_) => self.with_vault(self.vaults[vault_id].after_payouts(paid)),
            Err(_) => self,
        }
    }

    /// The ledger after a vault has been distributed in full; the ledger itself where
    /// the distribution is refused.
    pub open spec fn distribute(self, vault_id: u64) -> LedgerView {
        match self.payments(vault_id) {
            Ok(_) => self.with_vault(self.vaults[vault_id].distributed()),
            Err(_) => self,
        }
    }
}

/// One operation asked of the registry.
pub enum LedgerStep {
    CreateVault { caller: Address, token: Seq<u8>, initial_amount: nat, name: Seq<u8> },
    AddUser { caller: Address, vault_id: u64, new_user: Address },
    AddAmount { caller: Address, token: Seq<u8>, amount: nat, vault_id: u64 },
    Settle { vault_id: u64, paid: nat },
    Distribute { vault_id: u64 },
}

impl LedgerView {
    /// The ledger after one operation; the ledger itself where the operation is
    /// refused.
    pub open spec fn step(self, step: LedgerStep) -> LedgerView {
        match step {
            LedgerStep::CreateVault { caller, token, initial_amount, name } => {
                match self.create_vault(caller, token, initial_amount, name) {
                    Ok(after) => after,
                    Err(_) => self,
                }
            },
            LedgerStep::AddUser { caller, vault_id, new_user } => match self.add_user(
                caller,
                vault_id,
                new_user,
            ) {
                Ok(after) => after,
                Err(_) => self,
            },
            LedgerStep::AddAmount { caller, token, amount, vault_id } => match self.add_amount(
                caller,
                token,
                amount,
                vault_id,
            ) {
                Ok(after) => after,
                Err(_) => self,
            },
            LedgerStep::Settle { vault_id, paid } => self.after_payouts(vault_id, paid),
            LedgerStep::Distribute { vault_id } => self.distribute(vault_id),
        }
    }

    /// Whether an operation opens a vault: it is a creation, and it is not refused.
    pub open spec fn opens_vault(self, step: LedgerStep) -> bool {
        match step {
            LedgerStep::CreateVault { caller, token, initial_amount, name } => self.create_vault(
                caller,
                token,
                initial_amount,
                name,
            ) is Ok,
            _ => false,
        }
    }

    /// The ledger after a run of operations, one after the other.
    pub open spec fn run(self, steps: Seq<LedgerStep>) -> LedgerView
        decreases steps.len(),
    {
        if steps.len() == 0 {
            self
        } else {
            self.run(steps.drop_last()).step(steps.last())
        }
    }

    /// The number of vaults that a run of operations opens.
    pub open spec fn opened_in(self, steps: Seq<LedgerStep>) -> nat
        decreases steps.len(),
    {
        if steps.len() == 0 {
            0
        } else {
            self.opened_in(steps.drop_last()) + if self.run(steps.drop_last()).opens_vault(
                steps.last(),
            ) {
                1nat
            } else {
                0nat
            }
        }
    }
}

/// A vault that has just been opened reads back as it was opened. For every positive
/// payment in the native coin, of whatever size, the opening succeeds, the ordinal
/// given is the counter before, and the vault read under that ordinal has the
/// payment as its balance, no beneficiaries (the creator is not made one), and the
/// caller as its creator. The counter has then moved up by one.
pub proof fn law_created_vault_reads_back(
    ledger: LedgerView,
    caller: Address,
    token: Seq<u8>,
    initial_amount: nat,
    name: Seq<u8>,
)
    requires
        ledger.total_vaults < u64::MAX,
        initial_amount > 0,
        is_egld_name(token),
    ensures
        ledger.create_vault(caller, token, initial_amount, name) matches Ok(after) && ({
            let id = ledger.total_vaults;
            &&& after.total_vaults == id + 1
            &&& after.vault(id) matches Ok(vault) && vault.amount == initial_amount
                && vault.users.len() == 0 && vault.creator == caller && vault.id == id
                && vault.name == name
            &&& after.vault(id) == Ok::<VaultView, VaultError>(
                VaultView {
                    id,
                    creator: caller,
                    name,
                    users: Seq::empty(),
                    amount: initial_amount,
                },
            )
        }),
{
}

/// One operation moves the counter up by one where it opens a vault and leaves it
/// otherwise, keeps the ledger in order, and keeps every vault under its ordinal,
/// with the creator and the name it was opened with.
pub proof fn law_step_keeps_vaults(ledger: LedgerView, step: LedgerStep, id: u64)
    requires
        ledger.valid(),
        ledger.total_vaults < u64::MAX,
    ensures
        ledger.step(step).valid(),
        ledger.step(step).total_vaults == ledger.total_vaults + if ledger.opens_vault(step) {
            1nat
        } else {
            0nat
        },
        ledger.vault(id) matches Ok(before) ==> (ledger.step(step).vault(id) matches Ok(after)
            && after.id == id && after.creator == before.creator && after.name == before.name),
{
    match step {
        LedgerStep::CreateVault { caller, token, initial_amount, name } => {},
        LedgerStep::AddUser { caller, vault_id, new_user } => {
            if ledger.vaults.contains_key(vault_id) {
                assert(ledger.vaults[vault_id].id == vault_id);
            }
        },
        LedgerStep::AddAmount { caller, token, amount, vault_id } => {
            if ledger.vaults.contains_key(vault_id) {
                assert(ledger.vaults[vault_id].id == vault_id);
            }
        },
        LedgerStep::Settle { vault_id, paid } => {
            if ledger.vaults.contains_key(vault_id) {
                assert(ledger.vaults[vault_id].id == vault_id);
            }
        },
        LedgerStep::Distribute { vault_id } => {
            if ledger.vaults.contains_key(vault_id) {
                assert(ledger.vaults[vault_id].id == vault_id);
            }
        },
    }
    if ledger.vaults.contains_key(id) {
        assert(ledger.vaults[id].id == id);
    }
}

/// Whatever run of operations is made, the counter never goes down: it rises by
/// exactly the number of vaults that the run opens. The ledger stays in order, and
/// every vault that was there before is still there under its ordinal, with the
/// creator and the name it was opened with.
pub proof fn law_runs_keep_vaults(ledger: LedgerView, steps: Seq<LedgerStep>, id: u64)
    requires
        ledger.valid(),
        ledger.total_vaults + steps.len() <= u64::MAX,
    ensures
        ledger.run(steps).valid(),
        ledger.run(steps).total_vaults == ledger.total_vaults + ledger.opened_in(steps),
        ledger.opened_in(steps) <= steps.len(),
        ledger.vault(id) matches Ok(before) ==> (ledger.run(steps).vault(id) matches Ok(after)
            && after.id == id && after.creator == before.creator && after.name == before.name),
    decreases steps.len(),
{
    if steps.len() > 0 {
        let earlier = steps.drop_last();
        law_runs_keep_vaults(ledger, earlier, id);
        law_step_keeps_vaults(ledger.run(earlier), steps.last(), id);
    }
}

/// Ordinals grow from one opening to the next, whatever is done in between. Where a
/// vault is opened, then any run of operations is made, and then another vault is
/// opened, the second ordinal is the first plus one plus the number of vaults that
/// the run opened, so it is the next one where the run opened none. The second
/// opening leaves the first vault as the run left it: still under its ordinal and
/// still its creator's.
pub proof fn law_vault_ids_increase(
    ledger: LedgerView,
    first_caller: Address,
    first_token: Seq<u8>,
    first_amount: nat,
    first_name: Seq<u8>,
    between: Seq<LedgerStep>,
    second_caller: Address,
    second_token: Seq<u8>,
    second_amount: nat,
    second_name: Seq<u8>,
)
    requires
        ledger.valid(),
        ledger.total_vaults + between.len() + 2 <= u64::MAX,
        ledger.create_vault(first_caller, first_token, first_amount, first_name) is Ok,
        ledger.create_vault(first_caller, first_token, first_amount, first_name)->Ok_0.run(
            between,
        ).create_vault(second_caller, second_token, second_amount, second_name) is Ok,
    ensures
        ({
            let once = ledger.create_vault(
                first_caller,
                first_token,
                first_amount,
                first_name,
            )->Ok_0;
            let later = once.run(between);
            let twice = later.create_vault(
                second_caller,
                second_token,
                second_amount,
                second_name,
            )->Ok_0;
            let first_id = ledger.total_vaults;
            let second_id = later.total_vaults;
            &&& second_id == first_id + 1 + once.opened_in(between)
            &&& second_id > first_id
            &&& once.opened_in(between) == 0 ==> second_id == first_id + 1
            &&& twice.vault(first_id) == later.vault(first_id)
            &&& later.vault(first_id) matches Ok(kept) && kept.id == first_id && kept.creator
                == first_caller && kept.name == first_name
            &&& twice.vault(second_id) is Ok
            &&& twice.valid()
        }),
{
    let once = ledger.create_vault(first_caller, first_token, first_amount, first_name)->Ok_0;
    law_runs_keep_vaults(once, between, ledger.total_vaults);
}

/// Every operation keeps the ledger in order: the ordinals in use stay those below
/// the counter, and every vault stays under its own ordinal.
pub proof fn law_operations_keep_ledger_valid(
    ledger: LedgerView,
    caller: Address,
    token: Seq<u8>,
    amount: nat,
    name: Seq<u8>,
    vault_id: u64,
    user: Address,
    paid: nat,
)
    requires
        ledger.valid(),
    ensures
        LedgerView::empty().valid(),
        ledger.total_vaults < u64::MAX ==> (ledger.create_vault(caller, token, amount, name)
            matches Ok(after) ==> after.valid()),
        ledger.add_user(caller, vault_id, user) matches Ok(after) ==> after.valid(),
        ledger.add_amount(caller, token, amount, vault_id) matches Ok(after) ==> after.valid(),
        ledger.after_payouts(vault_id, paid).valid(),
        ledger.distribute(vault_id).valid(),
{
    if ledger.vaults.contains_key(vault_id) {
        assert(ledger.vaults[vault_id].id == vault_id);
    }
}

/// An operation on one vault leaves every other vault as it was.
pub proof fn law_other_vaults_untouched(
    ledger: LedgerView,
    caller: Address,
    token: Seq<u8>,
    amount: nat,
    vault_id: u64,
    user: Address,
    paid: nat,
    other: u64,
)
    requires
        ledger.valid(),
        other != vault_id,
    ensures
        ledger.add_user(caller, vault_id, user) matches Ok(after) ==> after.vault(other)
            == ledger.vault(other),
        ledger.add_amount(caller, token, amount, vault_id) matches Ok(after) ==> after.vault(other)
            == ledger.vault(other),
        ledger.after_payouts(vault_id, paid).vault(other) == ledger.vault(other),
        ledger.distribute(vault_id).vault(other) == ledger.vault(other),
{
    if ledger.vaults.contains_key(vault_id) {
        assert(ledger.vaults[vault_id].id == vault_id);
    }
}

/// Funds are accepted into a vault from its creator alone: any other caller is
/// refused as unauthorized, whatever the payment.
pub proof fn law_ledger_takes_funds_from_creator_only(
    ledger: LedgerView,
    caller: Address,
    token: Seq<u8>,
    amount: nat,
    vault_id: u64,
)
    requires
        ledger.vault(vault_id) is Ok,
        caller != ledger.vault(vault_id)->Ok_0.creator,
    ensures
        ledger.add_amount(caller, token, amount, vault_id) == Err::<LedgerView, VaultError>(
            VaultError::Unauthorized,
        ),
{
}

/// A vault without beneficiaries is not distributed: the request is refused, no
/// payment is made and the ledger stays as it was.
pub proof fn law_no_beneficiaries_no_payout(ledger: LedgerView, vault_id: u64, paid: nat)
    requires
        ledger.vault(vault_id) is Ok,
        ledger.vault(vault_id)->Ok_0.users.len() == 0,
    ensures
        ledger.payments(vault_id) == Err::<Seq<PaymentView>, VaultError>(
            VaultError::NoBeneficiaries,
        ),
        ledger.distribute(vault_id) == ledger,
        ledger.after_payouts(vault_id, paid) == ledger,
{
}

/// The registry of vaults.
///
/// An implementation supplies the ledger: a counter and one record per ordinal. The
/// operations on vaults are provided on top of it. Each reads what it needs, decides,
/// and writes only once every check has passed.
pub trait BasicVault {
    /// What the ledger holds.
    spec fn ledger(&self) -> LedgerView;

    /// Reads the counter.
    fn total_vaults(&self) -> (count: u64)
        ensures
            count == self.ledger().total_vaults,
    ;

    /// Writes the counter.
    fn set_total_vaults(&mut self, count: u64)
        ensures
            final(self).ledger() == (LedgerView { total_vaults: count, ..old(self).ledger() }),
    ;

    /// Reads the record kept under `id`.
    fn vault(&self, id: u64) -> (record: Option<Vault>)
        ensures
            match record {
                Some(vault) => self.ledger().vault(id) == Ok::<VaultView, VaultError>(vault@),
                None => self.ledger().vault(id) is Err,
            },
    ;

    /// Writes a record under its ordinal.
    fn set_vault(&mut self, vault: Vault)
        ensures
            final(self).ledger() == old(self).ledger().with_vault(vault@),
    ;

    /// Opens a vault for `caller`, funded by a positive payment in the native coin,
    /// and returns the ordinal it is kept under.
    fn create_vault(
        &mut self,
        caller: Address,
        token: &TokenId,
        initial_amount: Amount,
        name: Vec<u8>,
    ) -> (outcome: Result<u64, VaultError>)
        requires
            old(self).ledger().total_vaults < u64::MAX,
        ensures
            match outcome {
                Ok(id) => id == old(self).ledger().total_vaults && old(self).ledger().create_vault(
                    caller,
                    token@,
                    initial_amount@,
                    name@,
                ) == Ok::<LedgerView, VaultError>(final(self).ledger()),
                Err(e) => old(self).ledger().create_vault(caller, token@, initial_amount@, name@)
                    == Err::<LedgerView, VaultError>(e) && final(self).ledger() == old(
                    self,
                ).ledger(),
            },
    {
        let id = self.total_vaults();
        let vault = match Vault::create(id, caller, token, initial_amount, name) {
            Ok(v) => v,
            Err(e) => {
                return Err(e);
            },
        };
        self.set_vault(vault);
        self.set_total_vaults(id + 1);
        Ok(id)
    }

    /// Adds a beneficiary to a vault, on behalf of its creator.
    fn add_user(&mut self, caller: Address, vault_id: u64, new_user: Address) -> (outcome: Result<
        (),
        VaultError,
    >)
        ensures
            match outcome {
                Ok(()) => old(self).ledger().add_user(caller, vault_id, new_user) == Ok::<
                    LedgerView,
                    VaultError,
                >(final(self).ledger()),
                Err(e) => old(self).ledger().add_user(caller, vault_id, new_user) == Err::<
                    LedgerView,
                    VaultError,
                >(e) && final(self).ledger() == old(self).ledger(),
            },
    {
        let mut vault = match self.vault(vault_id) {
            Some(v) => v,
            None => {
                return Err(VaultError::NotFound);
            },
        };
        match vault.add_user(caller, new_user) {
            Ok(()) => {},
            Err(e) => {
                return Err(e);
            },
        }
        self.set_vault(vault);
        Ok(())
    }

    /// Adds funds to a vault, on behalf of its creator, by a positive payment in the
    /// native coin.
    fn add_amount(
        &mut self,
        caller: Address,
        token: &TokenId,
        amount: &Amount,
        vault_id: u64,
    ) -> (outcome: Result<(), VaultError>)
        ensures
            match outcome {
                Ok(()) => old(self).ledger().add_amount(caller, token@, amount@, vault_id) == Ok::<
                    LedgerView,
                    VaultError,
                >(final(self).ledger()),
                Err(e) => old(self).ledger().add_amount(caller, token@, amount@, vault_id) == Err::<
                    LedgerView,
                    VaultError,
                >(e) && final(self).ledger() == old(self).ledger(),
            },
    {
        let mut vault = match self.vault(vault_id) {
            Some(v) => v,
            None => {
                return Err(VaultError::NotFound);
            },
        };
        match vault.add_amount(caller, token, amount) {
            Ok(()) => {},
            Err(e) => {
                return Err(e);
            },
        }
        self.set_vault(vault);
        Ok(())
    }

    /// The payments that distributing a vault would make. Nothing is written.
    fn payout_plan(&self, vault_id: u64) -> (plan: Result<Vec<Payment>, VaultError>)
        ensures
            match plan {
                Ok(payments) => self.ledger().payments(vault_id) == Ok::<
                    Seq<PaymentView>,
                    VaultError,
                >(payment_views(payments@)),
                Err(e) => self.ledger().payments(vault_id) == Err::<Seq<PaymentView>, VaultError>(
                    e,
                ),
            },
    {
        match self.vault(vault_id) {
            Some(vault) => vault.payout_plan(),
            None => Err(VaultError::NotFound),
        }
    }

    /// Takes out of a vault's balance what a distribution has paid, given that its
    /// first `paid` payments went through and the next one, if any, failed.
    ///
    /// Where the distribution is refused nothing is written. Otherwise the balance
    /// drops by one share for each payment made, and the outcome says whether all
    /// were made.
    fn settle(&mut self, vault_id: u64, paid: usize) -> (outcome: Result<(), VaultError>)
        ensures
            final(self).ledger() == old(self).ledger().after_payouts(vault_id, paid as nat),
            match old(self).ledger().payments(vault_id) {
                Ok(payments) => outcome == (if paid >= payments.len() {
                    Ok::<(), VaultError>(())
                } else {
                    Err::<(), VaultError>(VaultError::TransferError)
                }),
                Err(e) => outcome == Err::<(), VaultError>(e),
            },
    {
        let mut vault = match self.vault(vault_id) {
            Some(v) => v,
            None => {
                return Err(VaultError::NotFound);
            },
        };
        let outcome = vault.settle(paid);
        match outcome {
            Ok(()) | Err(VaultError::TransferError) => {
                self.set_vault(vault);
            },
            Err(_) => {},
        }
        outcome
    }

    /// Distributes a vault: each beneficiary is owed one share, in the order in which
    /// they were added, and what the division leaves over stays in the vault.
    ///
    /// Anybody may ask for it. Where it is refused nothing is written.
    fn distribute(&mut self, vault_id: u64) -> (outcome: Result<Vec<Payment>, VaultError>)
        ensures
            final(self).ledger() == old(self).ledger().distribute(vault_id),
            match outcome {
                Ok(payments) => old(self).ledger().payments(vault_id) == Ok::<
                    Seq<PaymentView>,
                    VaultError,
                >(payment_views(payments@)),
                Err(e) => old(self).ledger().payments(vault_id) == Err::<
                    Seq<PaymentView>,
                    VaultError,
                >(e),
            },
    {
        let mut vault = match self.vault(vault_id) {
            Some(v) => v,
            None => {
                return Err(VaultError::NotFound);
            },
        };
        let payments = match vault.distribute() {
            Ok(p) => p,
            Err(e) => {
                return Err(e);
            },
        };
        self.set_vault(vault);
        Ok(payments)
    }
}

/// A ledger kept in memory.
pub struct MemoryLedger {
    total_vaults: u64,
    vaults: HashMap<u64, Vault>,
}

impl MemoryLedger {
    /// The ledger at genesis: no vault, the counter at zero.
    pub fn new() -> (ledger: MemoryLedger)
        ensures
            ledger.ledger() == LedgerView::empty(),
    {
        let ledger = MemoryLedger { total_vaults: 0, vaults: HashMap::new() };
        assert(ledger.ledger().vaults =~= Map::<u64, VaultView>::empty());
        ledger
    }
}

impl BasicVault for MemoryLedger {
    closed spec fn ledger(&self) -> LedgerView {
        LedgerView {
            total_vaults: self.total_vaults,
            vaults: self.vaults@.map_values(|v: Vault| v@),
        }
    }

    fn total_vaults(&self) -> (count: u64) {
        self.total_vaults
    }

    fn set_total_vaults(&mut self, count: u64) {
        self.total_vaults = count;
    }

    fn vault(&self, id: u64) -> (record: Option<Vault>) {
        broadcast use vstd::std_specs::hash::group_hash_axioms;

        match self.vaults.get(&id) {
            Some(vault) => Some(vault.clone()),
            None => None,
        }
    }

    fn set_vault(&mut self, vault: Vault) {
        broadcast use vstd::std_specs::hash::group_hash_axioms;

        let ghost written = vault@;
        self.vaults.insert(vault.id, vault);
        assert(self.ledger().vaults =~= old(self).ledger().vaults.insert(written.id, written));
    }
}

} // verus!
