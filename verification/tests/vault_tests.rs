use investment_vault::InvestmentVault;

// Helper function to create a test address
fn test_address(num: u8) -> u64 {
    num as u64
}

#[test]
fn test_initialization() {
    let mut vault = InvestmentVault::default();
    let usdt = test_address(1);
    let project = test_address(2);
    let brand = test_address(3);

    vault.initialize(usdt, project, brand);

    assert_eq!(vault.get_usdt_token(), usdt);
    assert_eq!(vault.get_project_token(), project);
    assert_eq!(vault.get_brand_wallet(), brand);
    assert_eq!(vault.is_distribution_active(), false);
    assert_eq!(vault.get_total_deposits(), 0);
}

#[test]
fn test_deposit_usdt() {
    let mut vault = InvestmentVault::default();
    let usdt = test_address(1);
    let project = test_address(2);
    let brand = test_address(3);
    let investor = test_address(4);

    vault.initialize(usdt, project, brand);

    let deposit_amount: u128 = 1000;

    let result = vault.deposit_usdt(investor, deposit_amount, true);
    assert!(result.is_ok());

    assert_eq!(vault.get_deposits(investor), deposit_amount);
    assert_eq!(vault.get_total_deposits(), deposit_amount);
    assert_eq!(vault.get_allocation(investor), deposit_amount); // 1:1 ratio
}

#[test]
fn test_distribution_activation() {
    let mut vault = InvestmentVault::default();
    let usdt = test_address(1);
    let project = test_address(2);
    let brand = test_address(3);
    let stranger = test_address(4);

    vault.initialize(usdt, project, brand);

    // Activation by a caller other than the brand wallet must fail
    let result = vault.start_distribution(stranger);
    assert!(result.is_err());
    assert_eq!(vault.is_distribution_active(), false);
}

#[test]
fn test_eligibility_checks() {
    let mut vault = InvestmentVault::default();
    let usdt = test_address(1);
    let project = test_address(2);
    let brand = test_address(3);
    let investor = test_address(4);

    vault.initialize(usdt, project, brand);

    // Initially not eligible (no allocation)
    assert_eq!(vault.check_eligibility(investor), false);

    let deposit_amount: u128 = 1000;
    let _ = vault.deposit_usdt(investor, deposit_amount, true);

    // Eligible after a deposit and before claiming
    assert_eq!(vault.check_eligibility(investor), true);
}

#[test]
fn test_token_claiming() {
    let mut vault = InvestmentVault::default();
    let usdt = test_address(1);
    let project = test_address(2);
    let brand = test_address(3);
    let investor = test_address(4);

    vault.initialize(usdt, project, brand);

    // Claiming before distribution is active must fail
    let result = vault.claim_tokens(investor, true);
    assert!(result.is_err());

    let deposit_amount: u128 = 1000;
    let _ = vault.deposit_usdt(investor, deposit_amount, true);
    let _ = vault.start_distribution(brand);

    let result = vault.claim_tokens(investor, true);
    assert!(result.is_ok());

    assert_eq!(vault.is_claimed(investor), true);

    // Double claiming must fail
    let result = vault.claim_tokens(investor, true);
    assert!(result.is_err());
}

#[test]
fn test_getter_functions() {
    let mut vault = InvestmentVault::default();
    let usdt = test_address(1);
    let project = test_address(2);
    let brand = test_address(3);
    let investor = test_address(4);

    vault.initialize(usdt, project, brand);

    assert_eq!(vault.get_allocation(investor), 0);
    assert_eq!(vault.get_deposits(investor), 0);
    assert_eq!(vault.is_claimed(investor), false);
    assert_eq!(vault.is_distribution_active(), false);
    assert_eq!(vault.get_total_deposits(), 0);

    let deposit_amount: u128 = 1000;
    let _ = vault.deposit_usdt(investor, deposit_amount, true);

    assert_eq!(vault.get_allocation(investor), deposit_amount);
    assert_eq!(vault.get_deposits(investor), deposit_amount);
    assert_eq!(vault.get_total_deposits(), deposit_amount);
}
