use vault_accounting::amount::Amount;
use vault_accounting::basic_vault::{BasicVault, LedgerView};
use vault_accounting::error::VaultError;
use vault_accounting::identity::{Address, TokenId};
use vault_accounting::vault::Vault;
use vault_accounting::y_vault::{YVault, YVaultState, YVaultView};

/// A ledger that keeps its records in a list and counts how often it is written.
struct ListLedger {
    counter: u64,
    records: Vec<Vault>,
    writes: usize,
}

impl BasicVault for ListLedger {
    /// Only proofs speak of what a ledger holds; running code never asks.
    fn ledger(&self) -> LedgerView {
        unreachable!()
    }

    fn total_vaults(&self) -> u64 {
        self.counter
    }

    fn set_total_vaults(&mut self, count: u64) {
        self.counter = count;
        self.writes += 1;
    }

    fn vault(&self, id: u64) -> Option<Vault> {
        self.records.iter().find(|record| record.id == id).cloned()
    }

    fn set_vault(&mut self, vault: Vault) {
        self.writes += 1;
        match self.records.iter_mut().find(|record| record.id == vault.id) {
            Some(record) => *record = vault,
            None => self.records.push(vault),
        }
    }
}

/// A store that counts how often the state is written.
struct CountingStore {
    state: YVaultState,
    writes: usize,
}

impl YVault for CountingStore {
    /// Only proofs speak of what a store holds; running code never asks.
    fn state(&self) -> YVaultView {
        unreachable!()
    }

    fn load(&self) -> YVaultState {
        self.state.clone()
    }

    fn store(&mut self, state: YVaultState) {
        self.state = state;
        self.writes += 1;
    }
}

fn user(tag: u8) -> Address {
    Address::from_bytes([tag; 32])
}

#[test]
fn refused_operations_write_nothing_to_the_ledger() {
    let mut ledger = ListLedger { counter: 0, records: Vec::new(), writes: 0 };
    assert_eq!(
        ledger.create_vault(user(1), &TokenId::egld(), Amount::zero(), Vec::new()),
        Err(VaultError::InvalidPayment)
    );
    assert_eq!(ledger.writes, 0);
    let id = ledger
        .create_vault(user(1), &TokenId::egld(), Amount::from_u64(10), Vec::new())
        .unwrap();
    assert_eq!(ledger.writes, 2);
    assert_eq!(ledger.add_user(user(2), id, user(3)), Err(VaultError::Unauthorized));
    assert_eq!(ledger.add_user(user(1), id + 1, user(3)), Err(VaultError::NotFound));
    assert_eq!(
        ledger.add_amount(user(2), &TokenId::egld(), &Amount::from_u64(1), id),
        Err(VaultError::Unauthorized)
    );
    assert_eq!(
        ledger.add_amount(user(1), &TokenId::egld(), &Amount::zero(), id),
        Err(VaultError::InvalidPayment)
    );
    assert_eq!(ledger.distribute(id), Err(VaultError::NoBeneficiaries));
    assert_eq!(ledger.settle(id, 1), Err(VaultError::NoBeneficiaries));
    assert_eq!(ledger.writes, 2);
    assert_eq!(ledger.add_user(user(1), id, user(3)), Ok(()));
    assert_eq!(ledger.writes, 3);
    assert!(ledger.payout_plan(id).is_ok());
    assert_eq!(ledger.writes, 3);
    assert!(ledger.distribute(id).is_ok());
    assert_eq!(ledger.writes, 4);
    assert_eq!(ledger.distribute(id), Err(VaultError::NoFunds));
    assert_eq!(ledger.writes, 4);
}

#[test]
fn operations_work_on_any_ledger() {
    let mut ledger = ListLedger { counter: 0, records: Vec::new(), writes: 0 };
    let first = ledger
        .create_vault(user(1), &TokenId::egld(), Amount::from_u64(10), b"one".to_vec())
        .unwrap();
    let second = ledger
        .create_vault(user(2), &TokenId::egld(), Amount::from_u64(21), b"two".to_vec())
        .unwrap();
    assert_eq!((first, second), (0, 1));
    assert_eq!(ledger.total_vaults(), 2);
    ledger.add_user(user(2), second, user(5)).unwrap();
    ledger.add_user(user(2), second, user(6)).unwrap();
    let payments = ledger.distribute(second).unwrap();
    assert_eq!(payments.len(), 2);
    assert_eq!(payments[0].amount, Amount::from_u64(10));
    assert_eq!(payments[1].to, user(6));
    assert_eq!(ledger.vault(second).unwrap().amount, Amount::from_u64(1));
    assert_eq!(ledger.vault(first).unwrap().amount, Amount::from_u64(10));
}

#[test]
fn refused_operations_write_nothing_to_the_store() {
    let mut store = CountingStore { state: YVaultState::vacant(), writes: 0 };
    store.init(
        user(1),
        user(2),
        100,
        TokenId::new(b"BASE-000001".to_vec()),
        Amount::from_u64(5),
        b"Vault".to_vec(),
        b"VLT".to_vec(),
        user(3),
        user(4),
        user(5),
        b"v".to_vec(),
    )
    .unwrap();
    assert_eq!(store.writes, 1);
    assert_eq!(
        store.set_performance_fee(user(1), Amount::from_u64(10_001)),
        Err(VaultError::InvalidParameter)
    );
    assert_eq!(
        store.set_management_fee(user(1), Amount::from_u64(10_001)),
        Err(VaultError::InvalidParameter)
    );
    assert_eq!(store.set_rewards(user(1), user(2)), Err(VaultError::InvalidAddress));
    assert_eq!(store.set_guardian(user(9), user(9)), Err(VaultError::Unauthorized));
    assert_eq!(
        store.create_vault_token(user(9), Amount::from_u64(5), Vec::new(), Vec::new()),
        Err(VaultError::Unauthorized)
    );
    assert_eq!(store.writes, 1);
    assert_eq!(store.set_performance_fee(user(1), Amount::from_u64(9_000)), Ok(()));
    assert_eq!(store.writes, 2);
    assert_eq!(store.performance_fee(), Amount::from_u64(9_000));
    assert_eq!(store.total_assets(&Amount::from_u64(3)), Amount::from_u64(3));
    assert_eq!(store.free_funds(&Amount::from_u64(3), 100), Amount::from_u64(3));
    assert_eq!(store.writes, 2);
    let issued = TokenId::new(b"VLT-000001".to_vec());
    store.issue_callback(Some(issued), Amount::zero(), &TokenId::egld()).unwrap();
    assert_eq!(store.writes, 3);
    let again = store.init(
        user(1),
        user(2),
        200,
        TokenId::egld(),
        Amount::from_u64(5),
        Vec::new(),
        Vec::new(),
        user(3),
        user(4),
        user(5),
        Vec::new(),
    );
    assert_eq!(again, Err(VaultError::AlreadyIssued));
    assert_eq!(store.writes, 3);
}
