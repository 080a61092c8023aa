use investment_vault::InvestmentVault;
use investment_vault::TransferRequest;
use investment_vault::VaultError;

const USDT: u64 = 11;
const PROJ: u64 = 22;
const BRAND: u64 = 33;
const ALICE: u64 = 44;
const BOB: u64 = 55;
const CAROL: u64 = 66;

fn configured_vault() -> InvestmentVault {
    let mut vault = InvestmentVault::default();
    vault.initialize(USDT, PROJ, BRAND);
    vault
}

#[test]
fn scenario_full_lifecycle() {
    let mut vault = configured_vault();

    assert_eq!(vault.deposit_usdt(ALICE, 1000, true), Ok(true));
    assert_eq!(vault.get_deposits(ALICE), 1000);
    assert_eq!(vault.get_allocation(ALICE), 1000);
    assert_eq!(vault.get_total_deposits(), 1000);

    assert_eq!(vault.claim_tokens(ALICE, true), Err(VaultError::PreconditionError));

    assert_eq!(vault.start_distribution(BRAND), Ok(true));
    assert_eq!(vault.is_distribution_active(), true);

    assert_eq!(vault.claim_tokens(ALICE, true), Ok(true));
    assert_eq!(vault.is_claimed(ALICE), true);

    assert_eq!(vault.claim_tokens(ALICE, true), Err(VaultError::AlreadyClaimedError));
}

#[test]
fn deposit_rollback_on_failed_pull() {
    let mut vault = configured_vault();
    assert_eq!(vault.deposit_usdt(ALICE, 1000, true), Ok(true));

    let result = vault.deposit_usdt(ALICE, 500, false);
    assert_eq!(result, Err(VaultError::ExternalTransferFailure));

    // No partial credit: the state is exactly as before the failed deposit.
    assert_eq!(vault.get_deposits(ALICE), 1000);
    assert_eq!(vault.get_allocation(ALICE), 1000);
    assert_eq!(vault.get_total_deposits(), 1000);
    assert_eq!(vault.is_claimed(ALICE), false);
}

#[test]
fn authorization_gate_keeps_flag_unchanged() {
    let mut vault = configured_vault();
    assert_eq!(vault.start_distribution(ALICE), Err(VaultError::AuthorizationError));
    assert_eq!(vault.is_distribution_active(), false);

    // Strangers are refused after activation too.
    assert_eq!(vault.start_distribution(BRAND), Ok(true));
    assert_eq!(vault.start_distribution(ALICE), Err(VaultError::AuthorizationError));
    assert_eq!(vault.is_distribution_active(), true);
}

#[test]
fn activation_is_idempotent() {
    let mut vault = configured_vault();
    assert_eq!(vault.start_distribution(BRAND), Ok(true));
    assert_eq!(vault.start_distribution(BRAND), Ok(true));
    assert_eq!(vault.is_distribution_active(), true);
}

#[test]
fn unset_authority_matches_no_one() {
    let mut vault = InvestmentVault::default();
    // Nobody passes the guard while the configuration is unset, not even a
    // caller whose identity is the zero value the authority field starts at.
    assert!(!vault.is_authority(0));
    assert_eq!(vault.start_distribution(0), Err(VaultError::AuthorizationError));
    assert_eq!(vault.is_distribution_active(), false);
}

#[test]
fn claim_before_activation_fails_whatever_the_allocation() {
    let mut vault = configured_vault();
    assert_eq!(vault.deposit_usdt(ALICE, 123456, true), Ok(true));
    assert_eq!(vault.claim_tokens(ALICE, true), Err(VaultError::PreconditionError));
    assert_eq!(vault.is_claimed(ALICE), false);
}

#[test]
fn claim_with_zero_allocation_fails() {
    let mut vault = configured_vault();
    assert_eq!(vault.start_distribution(BRAND), Ok(true));
    assert_eq!(vault.claim_tokens(BOB, true), Err(VaultError::PreconditionError));
}

#[test]
fn zero_amount_deposit_leaves_nothing_claimable() {
    let mut vault = configured_vault();
    assert_eq!(vault.deposit_usdt(ALICE, 0, true), Ok(true));
    assert_eq!(vault.get_deposits(ALICE), 0);
    assert_eq!(vault.get_allocation(ALICE), 0);
    assert_eq!(vault.check_eligibility(ALICE), false);
}

#[test]
fn claim_push_failure_rolls_back_and_keeps_entitlement() {
    let mut vault = configured_vault();
    assert_eq!(vault.deposit_usdt(ALICE, 700, true), Ok(true));
    assert_eq!(vault.start_distribution(BRAND), Ok(true));

    assert_eq!(vault.claim_tokens(ALICE, false), Err(VaultError::ExternalTransferFailure));
    assert_eq!(vault.is_claimed(ALICE), false);
    assert_eq!(vault.check_eligibility(ALICE), true);

    assert_eq!(vault.claim_tokens(ALICE, true), Ok(true));
    assert_eq!(vault.is_claimed(ALICE), true);
}

#[test]
fn deposit_conservation_across_participants() {
    let mut vault = configured_vault();
    assert_eq!(vault.deposit_usdt(ALICE, 1000, true), Ok(true));
    assert_eq!(vault.deposit_usdt(BOB, 250, true), Ok(true));
    assert_eq!(vault.deposit_usdt(ALICE, 750, true), Ok(true));
    assert_eq!(vault.deposit_usdt(CAROL, 5, true), Ok(true));
    let _ = vault.deposit_usdt(BOB, 400, false);

    let sum = vault.get_deposits(ALICE) + vault.get_deposits(BOB) + vault.get_deposits(CAROL);
    assert_eq!(vault.get_total_deposits(), sum);
    assert_eq!(vault.get_total_deposits(), 2005);
}

#[test]
fn allocation_grows_by_exactly_the_ratio_of_each_deposit() {
    let mut vault = configured_vault();
    assert_eq!(vault.deposit_usdt(ALICE, 300, true), Ok(true));
    let deposits_before = vault.get_deposits(ALICE);
    let allocation_before = vault.get_allocation(ALICE);

    assert_eq!(vault.deposit_usdt(ALICE, 41, true), Ok(true));
    assert_eq!(vault.get_deposits(ALICE), deposits_before + 41);
    assert_eq!(vault.get_allocation(ALICE), allocation_before + 41);
}

#[test]
fn deposit_of_the_largest_amount_is_accounted_exactly() {
    let mut vault = configured_vault();
    assert_eq!(vault.deposit_usdt(ALICE, u128::MAX, true), Ok(true));
    assert_eq!(vault.get_deposits(ALICE), u128::MAX);
    assert_eq!(vault.get_allocation(ALICE), u128::MAX);
    assert_eq!(vault.get_total_deposits(), u128::MAX);
}

#[test]
fn initialize_twice_keeps_first_configuration() {
    let mut vault = InvestmentVault::default();
    vault.initialize(USDT, PROJ, BRAND);
    vault.initialize(77, 88, 99);
    assert_eq!(vault.get_usdt_token(), USDT);
    assert_eq!(vault.get_project_token(), PROJ);
    assert_eq!(vault.get_brand_wallet(), BRAND);
}

#[test]
fn eligibility_tracks_allocation_and_claim_flag() {
    let mut vault = configured_vault();
    let states_agree = |vault: &InvestmentVault, p: u64| {
        vault.check_eligibility(p) == (vault.get_allocation(p) > 0 && !vault.is_claimed(p))
    };

    assert!(states_agree(&vault, ALICE));
    assert_eq!(vault.deposit_usdt(ALICE, 10, true), Ok(true));
    assert!(states_agree(&vault, ALICE));
    assert_eq!(vault.start_distribution(BRAND), Ok(true));
    assert_eq!(vault.claim_tokens(ALICE, true), Ok(true));
    assert!(states_agree(&vault, ALICE));
    assert!(!vault.check_eligibility(ALICE));
}

#[test]
fn deposit_request_names_the_pull_the_vault_expects() {
    let vault = configured_vault();
    let request = vault.deposit_request(ALICE, 1234);
    assert_eq!(
        request,
        TransferRequest::Pull { asset: USDT, from: ALICE, to: BRAND, amount: 1234 }
    );
}

#[test]
fn claim_request_names_the_push_for_an_eligible_claimant() {
    let mut vault = configured_vault();
    assert_eq!(vault.claim_request(ALICE), Err(VaultError::PreconditionError));

    assert_eq!(vault.deposit_usdt(ALICE, 900, true), Ok(true));
    assert_eq!(vault.start_distribution(BRAND), Ok(true));
    assert_eq!(
        vault.claim_request(ALICE),
        Ok(TransferRequest::Push { asset: PROJ, to: ALICE, amount: 900 })
    );

    assert_eq!(vault.claim_tokens(ALICE, true), Ok(true));
    assert_eq!(vault.claim_request(ALICE), Err(VaultError::AlreadyClaimedError));
}
