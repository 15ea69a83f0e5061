use vesting_contracts::{BatchCreateData, TokenLedger, VestingContract};

const CONTRACT: u64 = 1000;

#[test]
fn test_basic_invariant() {
    let mut c = VestingContract::new(CONTRACT);
    let admin: u64 = 1;
    let initial_supply: i128 = 1000000;
    c.initialize(admin, initial_supply).unwrap();

    assert!(c.check_invariant(), "Invariant should hold initially");

    let (total_locked, total_claimed, admin_balance) = c.get_contract_state();
    assert_eq!(total_locked, 0);
    assert_eq!(total_claimed, 0);
    assert_eq!(admin_balance, initial_supply);
}

#[test]
fn test_invariant_after_vault_creation() {
    let mut c = VestingContract::new(CONTRACT);
    let admin: u64 = 1;
    let initial_supply: i128 = 1000000;
    c.initialize(admin, initial_supply).unwrap();

    let user1: u64 = 11;
    let user2: u64 = 12;

    c.create_vault_full(admin, user1, 100000, 1640995200, 1672531199, 0, true, false, 0, 0).unwrap();
    c.create_vault_full(admin, user2, 200000, 1640995200, 1672531199, 0, true, false, 0, 0).unwrap();

    assert!(c.check_invariant(), "Invariant should hold after vault creation");

    let (total_locked, total_claimed, admin_balance) = c.get_contract_state();
    assert_eq!(total_locked, 300000);
    assert_eq!(total_claimed, 0);
    assert_eq!(admin_balance, 700000);
}

#[test]
fn test_invariant_after_token_claims() {
    let mut c = VestingContract::new(CONTRACT);
    let mut l = TokenLedger::new();
    let admin: u64 = 1;
    let initial_supply: i128 = 1000000;
    c.initialize(admin, initial_supply).unwrap();

    let user: u64 = 11;
    let vault_id = c.create_vault_full(admin, user, 100000, 1640995200, 1672531199, 0, true, false, 0, 0).unwrap();

    let now: u64 = 1672531199;
    c.claim_tokens(&mut l, user, vault_id, 50000, now).unwrap();
    c.claim_tokens(&mut l, user, vault_id, 30000, now).unwrap();

    assert!(c.check_invariant(), "Invariant should hold after token claims");

    let (total_locked, total_claimed, admin_balance) = c.get_contract_state();
    assert_eq!(total_locked, 20000);
    assert_eq!(total_claimed, 80000);
    assert_eq!(admin_balance, 900000);
}

#[test]
fn test_property_based_invariant_100_transactions() {
    let mut c = VestingContract::new(CONTRACT);
    let mut l = TokenLedger::new();
    let admin: u64 = 1;
    let initial_supply: i128 = 1000000;
    c.initialize(admin, initial_supply).unwrap();

    let mut users: Vec<u64> = Vec::new();
    for u in 0..10u64 {
        users.push(100 + u);
    }

    let now: u64 = 1672531199;

    for i in 0..100usize {
        match i % 4 {
            0 => {
                let user = users[i % users.len()];
                let amount = (i as i128 % 10000 + 1000) * 10;
                c.create_vault_full(admin, user, amount, 1640995200, 1672531199, 0, true, false, 0, 0).unwrap();
            }
            1 => {
                if i > 10 {
                    let vault_id = ((i % 10) + 1) as u64;
                    let claim_amount = (i as i128 % 5000 + 100) * 10;
                    if let Ok(v) = c.get_vault(vault_id) {
                        let _ = c.claim_tokens(&mut l, v.owner, vault_id, claim_amount, now);
                    }
                }
            }
            2 => {
                let batch_size = (i % 3) + 2;
                let mut batch_recipients: Vec<u64> = Vec::new();
                let mut batch_amounts: Vec<i128> = Vec::new();
                let mut batch_start_times: Vec<u64> = Vec::new();
                let mut batch_end_times: Vec<u64> = Vec::new();
                let mut batch_keeper_fees: Vec<i128> = Vec::new();
                let mut batch_step_durations: Vec<u64> = Vec::new();

                for j in 0..batch_size {
                    batch_recipients.push(users[(i + j) % users.len()]);
                    batch_amounts.push(((i + j) as i128 % 5000 + 1000) * 10);
                    batch_start_times.push(1640995200);
                    batch_end_times.push(1672531199);
                    batch_keeper_fees.push(0);
                    batch_step_durations.push(0);
                }

                let batch_data = BatchCreateData {
                    recipients: batch_recipients,
                    amounts: batch_amounts,
                    start_times: batch_start_times,
                    end_times: batch_end_times,
                    keeper_fees: batch_keeper_fees,
                    step_durations: batch_step_durations,
                };

                let _vault_ids = c.batch_create_vaults_full(admin, &batch_data, 0).unwrap();
            }
            3 => {
                assert!(c.check_invariant(), "Invariant violation detected!");
            }
            _ => unreachable!(),
        }
    }

    assert!(c.check_invariant(), "Invariant should hold after all transactions");

    let (total_locked, total_claimed, admin_balance) = c.get_contract_state();
    let sum = total_locked + total_claimed + admin_balance;
    assert_eq!(sum, initial_supply, "Final invariant check failed");
}
