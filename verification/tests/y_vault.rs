use vault_accounting::amount::Amount;
use vault_accounting::error::VaultError;
use vault_accounting::identity::{Address, TokenId};
use vault_accounting::vault::Payment;
use vault_accounting::issuance::{
    IssueFailure, Issuance, RoleGrant, TokenProperties, SHARE_TOKEN_DECIMALS,
};
use vault_accounting::y_vault::{
    YVault, YVaultState, DEGRADATION_COEFFICIENT, INITIAL_LOCKED_PROFIT_DEGRADATION,
    INITIAL_PERFORMANCE_FEE, MAX_BPS,
};

fn account(tag: u8) -> Address {
    let mut bytes = [0u8; 32];
    bytes[0] = 0xb0;
    bytes[31] = tag;
    Address::from_bytes(bytes)
}

const OWNER: u8 = 1;
const SELF: u8 = 2;
const MANAGEMENT: u8 = 3;
const GUARDIAN: u8 = 4;
const REWARDS: u8 = 5;
const STRANGER: u8 = 9;

fn base_token() -> TokenId {
    TokenId::new(b"WEGLD-abcdef".to_vec())
}

fn share_token() -> TokenId {
    TokenId::new(b"YVLT-123456".to_vec())
}

fn new_vault(now: u64) -> YVaultState {
    let mut vault = YVaultState::vacant();
    vault.init(
        account(OWNER),
        account(SELF),
        now,
        base_token(),
        Amount::from_u64(50),
        b"Yield Vault".to_vec(),
        b"YVLT".to_vec(),
        account(MANAGEMENT),
        account(GUARDIAN),
        account(REWARDS),
        b"yv".to_vec(),
    )
    .unwrap();
    vault
}

fn vault_with_profit(locked_profit: u64, degradation: u64, last_report: u64) -> YVaultState {
    let mut vault = new_vault(last_report);
    vault.locked_profit = Amount::from_u64(locked_profit);
    vault.locked_profit_degradation = Amount::from_u64(degradation);
    vault
}

#[test]
fn vacant_state_is_all_zero() {
    let vault = YVaultState::vacant();
    assert!(vault.owner.is_zero());
    assert!(vault.address.is_zero());
    assert!(vault.token.is_egld());
    assert_eq!(vault.issuance, Issuance::Uninitialized);
    assert!(vault.performance_fee.is_zero());
    assert!(vault.locked_profit_degradation.is_zero());
    assert_eq!(vault.activation, 0);
    assert!(vault.is_valid());
    assert!(!vault.is_issued());
}

#[test]
fn init_sets_up_the_vault_and_asks_for_the_token() {
    let mut vault = YVaultState::vacant();
    let request = vault.init(
        account(OWNER),
        account(SELF),
        1_700_000_000,
        base_token(),
        Amount::from_u64(50),
        b"Yield Vault".to_vec(),
        b"YVLT".to_vec(),
        account(MANAGEMENT),
        account(GUARDIAN),
        account(REWARDS),
        b"yv".to_vec(),
    )
    .unwrap();
    assert_eq!(vault.owner, account(OWNER));
    assert_eq!(vault.address, account(SELF));
    assert_eq!(vault.token, base_token());
    assert_eq!(vault.issuance, Issuance::Pending);
    assert_eq!(vault.vault_token_name, b"Yield Vault".to_vec());
    assert_eq!(vault.symbol, b"yv".to_vec());
    assert_eq!(vault.management, account(MANAGEMENT));
    assert_eq!(vault.guardian, account(GUARDIAN));
    assert_eq!(vault.rewards, account(REWARDS));
    assert_eq!(vault.performance_fee, Amount::from_u64(10_000));
    assert_eq!(vault.management_fee, Amount::zero());
    assert_eq!(vault.deposit_limit, Amount::zero());
    assert_eq!(vault.total_debt, Amount::zero());
    assert_eq!(vault.locked_profit, Amount::zero());
    assert_eq!(
        vault.locked_profit_degradation,
        Amount::from_u64(166_666_666_666_666_667)
    );
    assert_eq!(vault.activation, 1_700_000_000);
    assert_eq!(vault.last_report, 1_700_000_000);
    assert!(vault.is_valid());
    assert_eq!(request.issue_cost, Amount::from_u64(50));
    assert_eq!(request.token_name, b"Yield Vault".to_vec());
    assert_eq!(request.token_ticker, b"YVLT".to_vec());
    assert_eq!(
        request.properties,
        TokenProperties {
            num_decimals: 18,
            can_freeze: false,
            can_wipe: false,
            can_pause: false,
            can_change_owner: false,
            can_upgrade: false,
            can_add_special_roles: true,
        }
    );
}

#[test]
fn constants_have_their_values() {
    assert_eq!(DEGRADATION_COEFFICIENT, 1_000_000_000_000_000_000);
    assert_eq!(MAX_BPS, 10_000);
    assert_eq!(INITIAL_PERFORMANCE_FEE, 10_000);
    assert_eq!(INITIAL_LOCKED_PROFIT_DEGRADATION, 166_666_666_666_666_667);
    assert_eq!(INITIAL_LOCKED_PROFIT_DEGRADATION, DEGRADATION_COEFFICIENT / 6 + 1);
    assert_eq!(SHARE_TOKEN_DECIMALS, 18);
}

#[test]
fn load_and_store_round_trip() {
    let vault = new_vault(5);
    let copy = vault.load();
    assert_eq!(copy, vault);
    let mut other = YVaultState::vacant();
    other.store(copy);
    assert_eq!(other, vault);
    assert_eq!(vault.clone(), vault);
}

#[test]
fn create_vault_token_is_for_the_owner_only() {
    let mut vault = new_vault(5);
    let before = vault.clone();
    let outcome = vault.create_vault_token(
        account(STRANGER),
        Amount::from_u64(50),
        b"Other".to_vec(),
        b"OTH".to_vec(),
    );
    assert_eq!(outcome, Err(VaultError::Unauthorized));
    assert_eq!(vault, before);
}

#[test]
fn create_vault_token_may_be_asked_again_while_none_is_issued() {
    let mut vault = new_vault(5);
    let request = vault
        .create_vault_token(
            account(OWNER),
            Amount::from_u64(70),
            b"Second".to_vec(),
            b"SEC".to_vec(),
        )
        .unwrap();
    assert_eq!(request.issue_cost, Amount::from_u64(70));
    assert_eq!(request.token_name, b"Second".to_vec());
    assert_eq!(request.token_ticker, b"SEC".to_vec());
    assert_eq!(request.properties.num_decimals, 18);
    assert!(request.properties.can_add_special_roles);
    assert_eq!(vault.issuance, Issuance::Pending);
    assert_eq!(vault.vault_token_name, b"Second".to_vec());
}

#[test]
fn create_vault_token_after_issuance_is_refused() {
    let mut vault = new_vault(5);
    vault.issue_callback(Some(share_token()), Amount::zero(), &TokenId::egld()).unwrap();
    let before = vault.clone();
    let outcome = vault.create_vault_token(
        account(OWNER),
        Amount::from_u64(50),
        b"Again".to_vec(),
        b"AGN".to_vec(),
    );
    assert_eq!(outcome, Err(VaultError::AlreadyIssued));
    assert_eq!(vault, before);
}

#[test]
fn issue_callback_records_the_token_and_grants_roles() {
    let mut vault = new_vault(5);
    let grant = vault.issue_callback(Some(share_token()), Amount::zero(), &TokenId::egld());
    assert_eq!(
        grant,
        Ok(RoleGrant { address: account(SELF), token: share_token(), mint: true, burn: true })
    );
    assert_eq!(vault.issuance, Issuance::Issued(share_token()));
    assert!(vault.is_issued());
}

#[test]
fn issue_callback_refuses_a_second_token() {
    let mut vault = new_vault(5);
    vault.issue_callback(Some(share_token()), Amount::zero(), &TokenId::egld()).unwrap();
    let second = vault.issue_callback(
        Some(TokenId::new(b"OTHER-654321".to_vec())),
        Amount::from_u64(50),
        &TokenId::egld(),
    );
    assert_eq!(second, Err(IssueFailure { error: VaultError::AlreadyIssued, refund: None }));
    assert_eq!(vault.issuance, Issuance::Issued(share_token()));
}

#[test]
fn issue_callback_stores_whatever_identity_was_issued() {
    let mut vault = new_vault(5);
    let outcome =
        vault.issue_callback(Some(TokenId::egld()), Amount::from_u64(5), &TokenId::egld());
    assert_eq!(
        outcome,
        Ok(RoleGrant { address: account(SELF), token: TokenId::egld(), mint: true, burn: true })
    );
    assert_eq!(vault.issuance, Issuance::Issued(TokenId::egld()));
    assert!(vault.is_issued());
    let again = vault.create_vault_token(
        account(OWNER),
        Amount::from_u64(50),
        b"Again".to_vec(),
        b"AGN".to_vec(),
    );
    assert_eq!(again, Err(VaultError::AlreadyIssued));
}

#[test]
fn init_after_issuance_is_refused() {
    let mut vault = new_vault(5);
    vault.issue_callback(Some(share_token()), Amount::zero(), &TokenId::egld()).unwrap();
    vault.set_performance_fee(account(OWNER), Amount::from_u64(300)).unwrap();
    let before = vault.clone();
    let outcome = vault.init(
        account(STRANGER),
        account(SELF),
        99,
        base_token(),
        Amount::from_u64(50),
        b"Other".to_vec(),
        b"OTH".to_vec(),
        account(MANAGEMENT),
        account(GUARDIAN),
        account(REWARDS),
        b"other".to_vec(),
    );
    assert_eq!(outcome, Err(VaultError::AlreadyIssued));
    assert_eq!(vault, before);
    assert_eq!(vault.issuance, Issuance::Issued(share_token()));
}

#[test]
fn init_again_before_issuance_keeps_what_it_does_not_name() {
    let mut vault = new_vault(5);
    vault.set_management_fee(account(OWNER), Amount::from_u64(200)).unwrap();
    vault.set_deposit_limit(account(OWNER), Amount::from_u64(1_000)).unwrap();
    vault.set_performance_fee(account(OWNER), Amount::from_u64(300)).unwrap();
    vault.set_locked_profit_degradation(account(OWNER), Amount::from_u64(7)).unwrap();
    vault.total_debt = Amount::from_u64(40);
    vault.locked_profit = Amount::from_u64(30);
    let request = vault
        .init(
            account(OWNER),
            account(SELF),
            99,
            share_token(),
            Amount::from_u64(60),
            b"Renamed".to_vec(),
            b"RNM".to_vec(),
            account(20),
            account(21),
            account(22),
            b"rn".to_vec(),
        )
        .unwrap();
    assert_eq!(request.issue_cost, Amount::from_u64(60));
    assert_eq!(request.token_ticker, b"RNM".to_vec());
    assert_eq!(vault.token, share_token());
    assert_eq!(vault.issuance, Issuance::Pending);
    assert_eq!(vault.vault_token_name, b"Renamed".to_vec());
    assert_eq!(vault.symbol, b"rn".to_vec());
    assert_eq!(vault.management, account(20));
    assert_eq!(vault.guardian, account(21));
    assert_eq!(vault.rewards, account(22));
    assert_eq!(vault.activation, 99);
    assert_eq!(vault.last_report, 99);
    assert_eq!(vault.performance_fee, Amount::from_u64(10_000));
    assert_eq!(
        vault.locked_profit_degradation,
        Amount::from_u64(INITIAL_LOCKED_PROFIT_DEGRADATION)
    );
    assert_eq!(vault.management_fee, Amount::from_u64(200));
    assert_eq!(vault.deposit_limit, Amount::from_u64(1_000));
    assert_eq!(vault.total_debt, Amount::from_u64(40));
    assert_eq!(vault.locked_profit, Amount::from_u64(30));
}

#[test]
fn issue_callback_failure_refunds_the_owner() {
    let mut vault = new_vault(5);
    let outcome = vault.issue_callback(None, Amount::from_u64(50), &TokenId::egld());
    assert_eq!(
        outcome,
        Err(IssueFailure {
            error: VaultError::IssueError,
            refund: Some(Payment { to: account(OWNER), amount: Amount::from_u64(50) }),
        })
    );
    assert_eq!(vault.issuance, Issuance::Failed);
    assert!(!vault.is_issued());
}

#[test]
fn issue_callback_failure_without_returned_egld_refunds_nothing() {
    let mut vault = new_vault(5);
    let nothing = vault.issue_callback(None, Amount::zero(), &TokenId::egld());
    assert_eq!(nothing, Err(IssueFailure { error: VaultError::IssueError, refund: None }));
    let mut other = new_vault(5);
    let wrong_asset = other.issue_callback(None, Amount::from_u64(50), &base_token());
    assert_eq!(wrong_asset, Err(IssueFailure { error: VaultError::IssueError, refund: None }));
    assert_eq!(other.issuance, Issuance::Failed);
}

#[test]
fn issue_callback_failure_after_issuance_keeps_the_token() {
    let mut vault = new_vault(5);
    vault.issue_callback(Some(share_token()), Amount::zero(), &TokenId::egld()).unwrap();
    let outcome = vault.issue_callback(None, Amount::from_u64(50), &TokenId::egld());
    assert_eq!(
        outcome,
        Err(IssueFailure {
            error: VaultError::IssueError,
            refund: Some(Payment { to: account(OWNER), amount: Amount::from_u64(50) }),
        })
    );
    assert_eq!(vault.issuance, Issuance::Issued(share_token()));
}

#[test]
fn issuance_can_be_retried_after_a_failure() {
    let mut vault = new_vault(5);
    let _ = vault.issue_callback(None, Amount::from_u64(50), &TokenId::egld());
    assert_eq!(vault.issuance, Issuance::Failed);
    vault
        .create_vault_token(
            account(OWNER),
            Amount::from_u64(50),
            b"Retry".to_vec(),
            b"RTY".to_vec(),
        )
        .unwrap();
    assert_eq!(vault.issuance, Issuance::Pending);
    vault.issue_callback(Some(share_token()), Amount::zero(), &TokenId::egld()).unwrap();
    assert_eq!(vault.issuance, Issuance::Issued(share_token()));
}

#[test]
fn set_performance_fee_accepts_the_whole_and_no_more() {
    let mut vault = new_vault(5);
    assert_eq!(
        vault.set_performance_fee(account(OWNER), Amount::from_u64(10_001)),
        Err(VaultError::InvalidParameter)
    );
    assert_eq!(vault.performance_fee, Amount::from_u64(10_000));
    assert_eq!(vault.set_performance_fee(account(OWNER), Amount::from_u64(10_000)), Ok(()));
    assert_eq!(vault.performance_fee, Amount::from_u64(10_000));
    assert_eq!(vault.set_performance_fee(account(OWNER), Amount::from_u64(1_234)), Ok(()));
    assert_eq!(vault.performance_fee, Amount::from_u64(1_234));
    assert_eq!(vault.set_performance_fee(account(OWNER), Amount::zero()), Ok(()));
    assert_eq!(vault.performance_fee, Amount::zero());
    assert_eq!(
        vault.set_performance_fee(account(OWNER), Amount::from_u128(1u128 << 100)),
        Err(VaultError::InvalidParameter)
    );
    assert!(vault.is_valid());
}

#[test]
fn set_management_fee_accepts_the_whole_and_no_more() {
    let mut vault = new_vault(5);
    assert_eq!(
        vault.set_management_fee(account(OWNER), Amount::from_u64(10_001)),
        Err(VaultError::InvalidParameter)
    );
    assert_eq!(vault.management_fee, Amount::zero());
    assert_eq!(vault.set_management_fee(account(OWNER), Amount::from_u64(10_000)), Ok(()));
    assert_eq!(vault.management_fee, Amount::from_u64(10_000));
    assert_eq!(vault.set_management_fee(account(OWNER), Amount::from_u64(200)), Ok(()));
    assert_eq!(vault.management_fee, Amount::from_u64(200));
}

#[test]
fn set_rewards_refuses_the_vault_itself_and_the_zero_identity() {
    let mut vault = new_vault(5);
    assert_eq!(vault.set_rewards(account(OWNER), account(SELF)), Err(VaultError::InvalidAddress));
    assert_eq!(vault.set_rewards(account(OWNER), Address::zero()), Err(VaultError::InvalidAddress));
    assert_eq!(vault.rewards, account(REWARDS));
    assert_eq!(vault.set_rewards(account(OWNER), account(42)), Ok(()));
    assert_eq!(vault.rewards, account(42));
    assert_eq!(vault.set_rewards(account(OWNER), account(OWNER)), Ok(()));
    assert_eq!(vault.rewards, account(OWNER));
}

#[test]
fn set_locked_profit_degradation_accepts_up_to_the_coefficient() {
    let mut vault = new_vault(5);
    let above = Amount::from_u64(DEGRADATION_COEFFICIENT + 1);
    assert_eq!(
        vault.set_locked_profit_degradation(account(OWNER), above),
        Err(VaultError::InvalidParameter)
    );
    assert_eq!(
        vault.locked_profit_degradation,
        Amount::from_u64(166_666_666_666_666_667)
    );
    assert_eq!(
        vault.set_locked_profit_degradation(
            account(OWNER),
            Amount::from_u64(DEGRADATION_COEFFICIENT),
        ),
        Ok(())
    );
    assert_eq!(vault.locked_profit_degradation, Amount::from_u64(DEGRADATION_COEFFICIENT));
    assert_eq!(vault.set_locked_profit_degradation(account(OWNER), Amount::zero()), Ok(()));
    assert_eq!(vault.locked_profit_degradation, Amount::zero());
    assert!(vault.is_valid());
}

#[test]
fn plain_setters_store_what_they_are_given() {
    let mut vault = new_vault(5);
    assert_eq!(vault.set_symbol(account(OWNER), b"yvEGLD".to_vec()), Ok(()));
    assert_eq!(vault.symbol, b"yvEGLD".to_vec());
    assert_eq!(vault.set_management(account(OWNER), account(30)), Ok(()));
    assert_eq!(vault.management, account(30));
    assert_eq!(vault.set_guardian(account(OWNER), account(31)), Ok(()));
    assert_eq!(vault.guardian, account(31));
    let limit = Amount::from_u128(5_000_000_000_000_000_000_000_000);
    assert_eq!(vault.set_deposit_limit(account(OWNER), limit.clone()), Ok(()));
    assert_eq!(vault.deposit_limit, limit);
    assert_eq!(vault.load().deposit_limit, limit);
}

#[test]
fn setters_are_for_the_owner_only() {
    let mut vault = new_vault(5);
    let before = vault.clone();
    let stranger = account(STRANGER);
    assert_eq!(vault.set_symbol(stranger, b"x".to_vec()), Err(VaultError::Unauthorized));
    assert_eq!(vault.set_management(stranger, account(30)), Err(VaultError::Unauthorized));
    assert_eq!(vault.set_rewards(stranger, account(30)), Err(VaultError::Unauthorized));
    assert_eq!(vault.set_rewards(stranger, Address::zero()), Err(VaultError::Unauthorized));
    assert_eq!(
        vault.set_locked_profit_degradation(stranger, Amount::from_u64(1)),
        Err(VaultError::Unauthorized)
    );
    assert_eq!(
        vault.set_deposit_limit(stranger, Amount::from_u64(1)),
        Err(VaultError::Unauthorized)
    );
    assert_eq!(
        vault.set_performance_fee(stranger, Amount::from_u64(1)),
        Err(VaultError::Unauthorized)
    );
    assert_eq!(
        vault.set_performance_fee(stranger, Amount::from_u64(10_001)),
        Err(VaultError::Unauthorized)
    );
    assert_eq!(
        vault.set_management_fee(stranger, Amount::from_u64(1)),
        Err(VaultError::Unauthorized)
    );
    assert_eq!(vault.set_guardian(stranger, account(30)), Err(VaultError::Unauthorized));
    assert_eq!(vault.set_guardian(account(MANAGEMENT), account(30)), Err(VaultError::Unauthorized));
    assert_eq!(vault, before);
}

#[test]
fn is_valid_notices_rates_out_of_range() {
    let mut vault = new_vault(5);
    assert!(vault.is_valid());
    vault.performance_fee = Amount::from_u64(10_001);
    assert!(!vault.is_valid());
    vault.performance_fee = Amount::from_u64(10_000);
    vault.management_fee = Amount::from_u64(10_001);
    assert!(!vault.is_valid());
    vault.management_fee = Amount::zero();
    vault.locked_profit_degradation = Amount::from_u64(DEGRADATION_COEFFICIENT + 1);
    assert!(!vault.is_valid());
}

#[test]
fn total_assets_adds_balance_and_debt() {
    let mut vault = new_vault(5);
    assert_eq!(vault.total_assets(&Amount::from_u64(700)), Amount::from_u64(700));
    vault.total_debt = Amount::from_u64(300);
    assert_eq!(vault.total_assets(&Amount::from_u64(700)), Amount::from_u64(1_000));
    assert_eq!(vault.total_assets(&Amount::zero()), Amount::from_u64(300));
}

#[test]
fn locked_profit_is_whole_at_the_report() {
    let vault = vault_with_profit(1_000_003, 166_666_666_666_666_667, 1_000);
    assert_eq!(vault.calculate_locked_profit(1_000), Amount::from_u64(1_000_003));
}

#[test]
fn locked_profit_decays_linearly() {
    let tenth = DEGRADATION_COEFFICIENT / 10;
    let vault = vault_with_profit(1_000, tenth, 1_000);
    assert_eq!(vault.calculate_locked_profit(1_001), Amount::from_u64(900));
    assert_eq!(vault.calculate_locked_profit(1_005), Amount::from_u64(500));
    assert_eq!(vault.calculate_locked_profit(1_009), Amount::from_u64(100));
    assert_eq!(vault.calculate_locked_profit(1_010), Amount::zero());
    assert_eq!(vault.calculate_locked_profit(1_011), Amount::zero());
    assert_eq!(vault.calculate_locked_profit(u64::MAX), Amount::zero());
}

#[test]
fn locked_profit_rounds_down_after_the_product() {
    let third = 333_333_333_333_333_333;
    let vault = vault_with_profit(10, third, 0);
    assert_eq!(vault.calculate_locked_profit(1), Amount::from_u64(6));
    assert_eq!(vault.calculate_locked_profit(2), Amount::from_u64(3));
    assert_eq!(vault.calculate_locked_profit(3), Amount::zero());
    assert_eq!(vault.calculate_locked_profit(4), Amount::zero());
    let one = vault_with_profit(1, 1, 0);
    assert_eq!(one.calculate_locked_profit(0), Amount::from_u64(1));
    assert_eq!(one.calculate_locked_profit(1), Amount::zero());
}

#[test]
fn locked_profit_with_the_initial_rate() {
    let vault = vault_with_profit(1_000_000, INITIAL_LOCKED_PROFIT_DEGRADATION, 0);
    assert_eq!(vault.calculate_locked_profit(0), Amount::from_u64(1_000_000));
    assert_eq!(vault.calculate_locked_profit(1), Amount::from_u64(833_333));
    assert_eq!(vault.calculate_locked_profit(3), Amount::from_u64(499_999));
    assert_eq!(vault.calculate_locked_profit(5), Amount::from_u64(166_666));
    assert_eq!(vault.calculate_locked_profit(6), Amount::zero());
    assert_eq!(vault.calculate_locked_profit(7), Amount::zero());
    let small = vault_with_profit(7, INITIAL_LOCKED_PROFIT_DEGRADATION, 0);
    assert_eq!(small.calculate_locked_profit(5), Amount::from_u64(1));
    assert_eq!(small.calculate_locked_profit(6), Amount::zero());
}

#[test]
fn locked_profit_never_grows_with_time() {
    let vault = vault_with_profit(987_654_321, 7_300_000_000_000_000, 50);
    let mut previous = vault.calculate_locked_profit(50);
    assert_eq!(previous, Amount::from_u64(987_654_321));
    for now in 51..260u64 {
        let current = vault.calculate_locked_profit(now);
        assert!(current.le(&previous));
        previous = current;
    }
    assert!(previous.is_zero());
}

#[test]
fn locked_profit_with_a_zero_rate_stays_locked() {
    let vault = vault_with_profit(500, 0, 0);
    assert_eq!(vault.calculate_locked_profit(u64::MAX), Amount::from_u64(500));
}

#[test]
fn locked_profit_of_any_size() {
    let mut vault = vault_with_profit(0, DEGRADATION_COEFFICIENT / 4, 0);
    vault.locked_profit = Amount::from_u128(u128::MAX).mul(&Amount::from_u64(4));
    let expected = Amount::from_u128(u128::MAX).mul(&Amount::from_u64(3));
    assert_eq!(vault.calculate_locked_profit(1), expected);
}

#[test]
fn free_funds_are_total_less_locked() {
    let tenth = DEGRADATION_COEFFICIENT / 10;
    let mut vault = vault_with_profit(1_000, tenth, 100);
    vault.total_debt = Amount::from_u64(2_000);
    assert_eq!(vault.free_funds(&Amount::from_u64(3_000), 100), Amount::from_u64(4_000));
    assert_eq!(vault.free_funds(&Amount::from_u64(3_000), 104), Amount::from_u64(4_400));
    assert_eq!(vault.free_funds(&Amount::from_u64(3_000), 110), Amount::from_u64(5_000));
}

#[test]
fn free_funds_stop_at_zero() {
    let vault = vault_with_profit(1_000, 0, 100);
    assert_eq!(vault.free_funds(&Amount::from_u64(400), 100), Amount::zero());
    assert_eq!(vault.free_funds(&Amount::from_u64(1_000), 100), Amount::zero());
    assert_eq!(vault.free_funds(&Amount::from_u64(1_001), 100), Amount::from_u64(1));
}

#[test]
fn first_depositor_gets_one_share_per_unit() {
    let vault = new_vault(5);
    let grant = vault
        .issue_shares_for_amount(
            account(20),
            &Amount::from_u64(750),
            &Amount::zero(),
            &Amount::zero(),
            5,
        )
        .unwrap();
    assert_eq!(grant.to, account(20));
    assert_eq!(grant.shares, Amount::from_u64(750));
}

#[test]
fn later_depositors_get_shares_in_proportion() {
    let mut vault = new_vault(5);
    vault.total_debt = Amount::from_u64(500);
    let grant = vault
        .issue_shares_for_amount(
            account(20),
            &Amount::from_u64(100),
            &Amount::from_u64(1_000),
            &Amount::from_u64(1_500),
            5,
        )
        .unwrap();
    assert_eq!(grant.shares, Amount::from_u64(50));
    let rounded = vault
        .issue_shares_for_amount(
            account(21),
            &Amount::from_u64(7),
            &Amount::from_u64(10),
            &Amount::from_u64(2_500),
            5,
        )
        .unwrap();
    assert_eq!(rounded.to, account(21));
    assert_eq!(rounded.shares, Amount::zero());
}

#[test]
fn shares_count_only_free_funds() {
    let tenth = DEGRADATION_COEFFICIENT / 10;
    let vault = vault_with_profit(1_000, tenth, 100);
    let grant = vault
        .issue_shares_for_amount(
            account(20),
            &Amount::from_u64(300),
            &Amount::from_u64(1_500),
            &Amount::from_u64(2_000),
            105,
        )
        .unwrap();
    assert_eq!(grant.shares, Amount::from_u64(300));
}

#[test]
fn shares_without_free_funds_are_refused() {
    let vault = vault_with_profit(1_000, 0, 100);
    let outcome = vault.issue_shares_for_amount(
        account(20),
        &Amount::from_u64(300),
        &Amount::from_u64(1_500),
        &Amount::from_u64(900),
        100,
    );
    assert_eq!(outcome, Err(VaultError::DegenerateShareState));
    let empty = new_vault(5).issue_shares_for_amount(
        account(20),
        &Amount::from_u64(300),
        &Amount::from_u64(1),
        &Amount::zero(),
        5,
    );
    assert_eq!(empty, Err(VaultError::DegenerateShareState));
}

#[test]
fn setters_read_back_through_the_views() {
    let mut vault = new_vault(5);
    let owner = account(OWNER);
    vault.set_symbol(owner, b"sym".to_vec()).unwrap();
    assert_eq!(vault.symbol(), b"sym".to_vec());
    vault.set_management(owner, account(60)).unwrap();
    assert_eq!(vault.management(), account(60));
    vault.set_rewards(owner, account(61)).unwrap();
    assert_eq!(vault.rewards(), account(61));
    vault.set_locked_profit_degradation(owner, Amount::from_u64(123_456)).unwrap();
    assert_eq!(vault.locked_profit_degradation(), Amount::from_u64(123_456));
    vault.set_deposit_limit(owner, Amount::from_u64(9_999_999)).unwrap();
    assert_eq!(vault.deposit_limit(), Amount::from_u64(9_999_999));
    vault.set_performance_fee(owner, Amount::from_u64(2_500)).unwrap();
    assert_eq!(vault.performance_fee(), Amount::from_u64(2_500));
    vault.set_management_fee(owner, Amount::from_u64(150)).unwrap();
    assert_eq!(vault.management_fee(), Amount::from_u64(150));
    vault.set_guardian(owner, account(62)).unwrap();
    assert_eq!(vault.guardian(), account(62));
    assert_eq!(vault.symbol(), b"sym".to_vec());
    assert_eq!(vault.management(), account(60));
    assert_eq!(vault.performance_fee(), Amount::from_u64(2_500));
}

#[test]
fn views_read_the_state() {
    let mut vault = new_vault(77);
    vault.total_debt = Amount::from_u64(11);
    vault.locked_profit = Amount::from_u64(12);
    assert_eq!(vault.token(), base_token());
    assert_eq!(vault.issuance(), Issuance::Pending);
    assert_eq!(vault.total_debt(), Amount::from_u64(11));
    assert_eq!(vault.locked_profit(), Amount::from_u64(12));
    assert_eq!(vault.activation(), 77);
    assert_eq!(vault.last_report(), 77);
    vault.issue_callback(Some(share_token()), Amount::zero(), &TokenId::egld()).unwrap();
    assert_eq!(vault.issuance(), Issuance::Issued(share_token()));
}
