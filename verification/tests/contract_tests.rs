use vesting_contracts::{BatchCreateData, Milestone, TokenLedger, VestingContract, VestingError};

const ADMIN: u64 = 1;
const CONTRACT: u64 = 1000;
const MAIN_TOKEN: u64 = 500;
const INITIAL_SUPPLY: i128 = 1_000_000;

/// Fresh contract + accounted token, with the initial supply held by the
/// contract, mirroring how the host would fund it.
fn setup() -> (VestingContract, TokenLedger) {
    let mut c = VestingContract::new(CONTRACT);
    c.initialize(ADMIN, INITIAL_SUPPLY).unwrap();
    c.set_token(ADMIN, MAIN_TOKEN).unwrap();
    c.add_to_whitelist(ADMIN, MAIN_TOKEN).unwrap();
    let mut l = TokenLedger::new();
    l.mint(MAIN_TOKEN, CONTRACT, INITIAL_SUPPLY).unwrap();
    (c, l)
}

fn migrated_amount(migrated: &Vec<(u64, i128)>, token: u64) -> i128 {
    for e in migrated {
        if e.0 == token {
            return e.1;
        }
    }
    0
}

#[test]
fn test_admin_ownership_transfer() {
    let (mut c, _l) = setup();
    let new_admin: u64 = 2;

    assert_eq!(c.get_admin(), Some(ADMIN));
    assert_eq!(c.get_proposed_admin(), None);

    c.propose_new_admin(ADMIN, new_admin).unwrap();
    assert_eq!(c.get_proposed_admin(), Some(new_admin));

    c.accept_ownership(new_admin).unwrap();
    assert_eq!(c.get_admin(), Some(new_admin));
    assert_eq!(c.get_proposed_admin(), None);
}

#[test]
fn test_migrate_liquidity_freezes_and_transfers_whitelisted_balances() {
    let (mut c, mut l) = setup();

    let token_addr: u64 = 501;
    c.add_to_whitelist(ADMIN, token_addr).unwrap();
    l.mint(token_addr, CONTRACT, 1_000).unwrap();

    let v2: u64 = 77;
    let migrated = c.migrate_liquidity(&mut l, ADMIN, v2).unwrap();

    assert!(c.is_deprecated());
    assert_eq!(c.get_migration_target(), Some(v2));
    assert!(c.is_paused());

    assert_eq!(migrated_amount(&migrated, token_addr), 1_000);
    assert_eq!(l.balance_of(token_addr, CONTRACT), 0);
    assert_eq!(l.balance_of(token_addr, v2), 1_000);
}

#[test]
fn test_migrate_liquidity_blocks_admin_actions_afterwards() {
    let (mut c, mut l) = setup();

    let token_addr: u64 = 501;
    c.add_to_whitelist(ADMIN, token_addr).unwrap();
    l.mint(token_addr, CONTRACT, 1_000).unwrap();

    let v2: u64 = 77;
    c.migrate_liquidity(&mut l, ADMIN, v2).unwrap();

    let beneficiary: u64 = 10;
    let now: u64 = 0;
    let r = c.create_vault_full(ADMIN, beneficiary, 1_000, now, now + 1_000, 0, true, false, 0, now);
    assert_eq!(r, Err(VestingError::InvalidState));
}

#[test]
fn test_create_vault_full_increments_count() {
    let (mut c, _l) = setup();
    let beneficiary: u64 = 10;
    let now: u64 = 0;

    let id1 = c.create_vault_full(ADMIN, beneficiary, 1_000, now, now + 1_000, 0, true, false, 0, now).unwrap();
    let id2 = c.create_vault_full(ADMIN, beneficiary, 500, now + 10, now + 2_000, 0, true, false, 0, now).unwrap();
    assert_eq!(id1, 1u64);
    assert_eq!(id2, 2u64);
}

#[test]
fn test_create_vault_lazy_increments_count() {
    let (mut c, _l) = setup();
    let beneficiary: u64 = 10;
    let now: u64 = 0;

    let id = c.create_vault_lazy(ADMIN, beneficiary, 1_000, now, now + 1_000, 0, true, false, 0, now).unwrap();
    assert_eq!(id, 1u64);
}

#[test]
fn test_batch_create_vaults_lazy() {
    let (mut c, _l) = setup();
    let batch = BatchCreateData {
        recipients: vec![11, 12],
        amounts: vec![1_000, 2_000],
        start_times: vec![100, 150],
        end_times: vec![200, 250],
        keeper_fees: vec![0, 0],
        step_durations: vec![0, 0],
    };

    let ids = c.batch_create_vaults_lazy(ADMIN, &batch, 0).unwrap();
    assert_eq!(ids.len(), 2);
}

#[test]
fn test_batch_create_vaults_full() {
    let (mut c, _l) = setup();
    let batch = BatchCreateData {
        recipients: vec![11, 12],
        amounts: vec![1_000, 2_000],
        start_times: vec![100, 150],
        end_times: vec![200, 250],
        keeper_fees: vec![0, 0],
        step_durations: vec![0, 0],
    };

    let ids = c.batch_create_vaults_full(ADMIN, &batch, 0).unwrap();
    assert_eq!(ids.len(), 2);
}

#[test]
fn test_step_vesting_full_claim_at_end() {
    let (mut c, mut l) = setup();
    let beneficiary: u64 = 10;
    let start: u64 = 1_000;
    let end: u64 = start + 101;
    let step: u64 = 17;
    let total: i128 = 1_009;

    let vault_id = c.create_vault_full(ADMIN, beneficiary, total, start, end, 0, true, true, step, 0).unwrap();

    let claimed = c.claim_tokens(&mut l, beneficiary, vault_id, total, end + 1).unwrap();
    assert_eq!(claimed, total);

    let vault = c.get_vault(vault_id).unwrap();
    assert_eq!(vault.released_amount, total);
}

#[test]
fn test_lockup_only_claim_succeeds_at_end() {
    let (mut c, mut l) = setup();
    let beneficiary: u64 = 10;
    let now: u64 = 0;
    let duration: u64 = 1_000;
    let total: i128 = 100_000;

    let vault_id = c.create_vault_full(ADMIN, beneficiary, total, now, now + duration, 0, true, false, duration, now).unwrap();

    let claimed = c.claim_tokens(&mut l, beneficiary, vault_id, total, now + duration).unwrap();
    assert_eq!(claimed, total);
}

#[test]
fn test_lockup_only_claim_fails_before_end() {
    let (mut c, mut l) = setup();
    let beneficiary: u64 = 10;
    let now: u64 = 0;
    let duration: u64 = 1_000;

    let vault_id = c.create_vault_full(ADMIN, beneficiary, 100_000, now, now + duration, 0, true, false, duration, now).unwrap();

    let r = c.claim_tokens(&mut l, beneficiary, vault_id, 1, now + duration - 1);
    assert_eq!(r, Err(VestingError::InsufficientBalance));
}

#[test]
fn test_periodic_vesting_monthly_steps() {
    let (mut c, _l) = setup();
    let beneficiary: u64 = 10;

    let amount: i128 = 1200000;
    let start_time: u64 = 1000000;
    let end_time: u64 = start_time + (365 * 24 * 60 * 60);
    let step_duration: u64 = 30 * 24 * 60 * 60;
    let keeper_fee: i128 = 1000;

    let vault_id = c.create_vault_full(
        ADMIN,
        beneficiary,
        amount,
        start_time,
        end_time,
        keeper_fee,
        false,
        true,
        step_duration,
        0,
    ).unwrap();

    let claimable = c.get_claimable_amount(vault_id, start_time - 1000).unwrap();
    assert_eq!(claimable, 0, "Should have no claimable tokens before start time");

    let claimable = c.get_claimable_amount(vault_id, start_time + (15 * 24 * 60 * 60)).unwrap();
    assert_eq!(claimable, 0, "Should have no claimable tokens before first step completes");

    let claimable = c.get_claimable_amount(vault_id, start_time + step_duration).unwrap();
    let expected_monthly = amount / 12;
    assert_eq!(claimable, expected_monthly, "Should have exactly one month of tokens after 30 days");

    let claimable = c.get_claimable_amount(vault_id, start_time + (45 * 24 * 60 * 60)).unwrap();
    assert_eq!(claimable, expected_monthly, "Should still have only one month of tokens after 45 days");

    let claimable = c.get_claimable_amount(vault_id, start_time + (2 * step_duration)).unwrap();
    assert_eq!(claimable, 2 * expected_monthly, "Should have two months of tokens after 60 days");

    let claimable = c.get_claimable_amount(vault_id, start_time + (6 * step_duration)).unwrap();
    assert_eq!(claimable, 6 * expected_monthly, "Should have six months of tokens after 6 months");

    let claimable = c.get_claimable_amount(vault_id, end_time + 1000).unwrap();
    assert_eq!(claimable, amount, "Should have all tokens vested after end time");
}

#[test]
fn test_periodic_vesting_weekly_steps() {
    let (mut c, _l) = setup();
    let beneficiary: u64 = 10;

    let amount: i128 = 520000;
    let start_time: u64 = 1000000;
    let end_time: u64 = start_time + (365 * 24 * 60 * 60);
    let step_duration: u64 = 7 * 24 * 60 * 60;
    let keeper_fee: i128 = 100;

    let vault_id = c.create_vault_full(
        ADMIN,
        beneficiary,
        amount,
        start_time,
        end_time,
        keeper_fee,
        false,
        true,
        step_duration,
        0,
    ).unwrap();

    let claimable = c.get_claimable_amount(vault_id, start_time + (3 * step_duration)).unwrap();
    let expected_weekly: i128 = 10000;
    assert_eq!(claimable, 3 * expected_weekly, "Should have three weeks of tokens after 3 weeks");

    let claimable = c.get_claimable_amount(vault_id, start_time + (10 * step_duration)).unwrap();
    assert_eq!(claimable, 10 * expected_weekly, "Should have ten weeks of tokens after 10 weeks");
}

#[test]
fn test_linear_vesting_step_duration_zero() {
    let (mut c, _l) = setup();
    let beneficiary: u64 = 10;

    let amount: i128 = 1200000;
    let start_time: u64 = 1000000;
    let end_time: u64 = start_time + (365 * 24 * 60 * 60);
    let step_duration: u64 = 0;
    let keeper_fee: i128 = 1000;

    let vault_id = c.create_vault_full(
        ADMIN,
        beneficiary,
        amount,
        start_time,
        end_time,
        keeper_fee,
        false,
        true,
        step_duration,
        0,
    ).unwrap();

    let claimable = c.get_claimable_amount(vault_id, start_time + (182 * 24 * 60 * 60)).unwrap();
    assert!(
        claimable > 598000 && claimable < 602000,
        "Should have ~50% of tokens after half the time for linear vesting"
    );

    let claimable = c.get_claimable_amount(vault_id, start_time + (91 * 24 * 60 * 60)).unwrap();
    assert!(
        claimable > 298000 && claimable < 302000,
        "Should have ~25% of tokens after quarter of the time for linear vesting"
    );
}

#[test]
fn test_periodic_vesting_claim_partial() {
    let (mut c, mut l) = setup();
    let beneficiary: u64 = 10;

    let amount: i128 = 120000;
    let start_time: u64 = 1000000;
    let end_time: u64 = start_time + (365 * 24 * 60 * 60);
    let step_duration: u64 = 30 * 24 * 60 * 60;
    let keeper_fee: i128 = 100;

    let vault_id = c.create_vault_full(
        ADMIN,
        beneficiary,
        amount,
        start_time,
        end_time,
        keeper_fee,
        false,
        true,
        step_duration,
        0,
    ).unwrap();

    let now = start_time + (3 * step_duration);

    let claim_amount: i128 = 15000;
    let claimed = c.claim_tokens(&mut l, beneficiary, vault_id, claim_amount, now).unwrap();
    assert_eq!(claimed, claim_amount, "Should claim the requested amount");

    let remaining_claimable = c.get_claimable_amount(vault_id, now).unwrap();
    assert_eq!(remaining_claimable, 15000, "Should have 15,000 tokens remaining claimable");

    let final_claim = c.claim_tokens(&mut l, beneficiary, vault_id, remaining_claimable, now).unwrap();
    assert_eq!(final_claim, remaining_claimable, "Should claim remaining tokens");

    let no_more_claimable = c.get_claimable_amount(vault_id, now).unwrap();
    assert_eq!(no_more_claimable, 0, "Should have no more claimable tokens");
}

#[test]
fn test_step_vesting_fuzz() {
    let (mut c, mut l) = setup();
    let beneficiary: u64 = 10;

    let total_amount: i128 = 1009;
    let start_time: u64 = 1000;
    let duration: u64 = 101;
    let end_time: u64 = start_time + duration;
    let step_duration: u64 = 17;

    let vault_id = c.create_vault_full(
        ADMIN,
        beneficiary,
        total_amount,
        start_time,
        end_time,
        0,
        true,
        true,
        step_duration,
        0,
    ).unwrap();

    let claimed = c.claim_tokens(&mut l, beneficiary, vault_id, total_amount, end_time + 1).unwrap();
    assert_eq!(claimed, total_amount);

    let vault = c.get_vault(vault_id).unwrap();
    assert_eq!(vault.released_amount, total_amount);
}

#[test]
fn test_mark_irrevocable_flag() {
    let (mut c, _l) = setup();
    let beneficiary: u64 = 10;
    let now: u64 = 0;

    let vault_id = c.create_vault_full(ADMIN, beneficiary, 1_000, now, now + 1_000, 0, true, false, 0, now).unwrap();

    assert!(!c.is_vault_irrevocable(vault_id).unwrap());
    c.mark_irrevocable(ADMIN, vault_id).unwrap();
    assert!(c.is_vault_irrevocable(vault_id).unwrap());
}

#[test]
fn test_revoke_irrevocable_vault_panics() {
    let (mut c, _l) = setup();
    let beneficiary: u64 = 10;
    let now: u64 = 0;

    let vault_id = c.create_vault_full(ADMIN, beneficiary, 1_000, now, now + 1_000, 0, true, false, 0, now).unwrap();

    c.mark_irrevocable(ADMIN, vault_id).unwrap();
    let r = c.revoke_tokens(ADMIN, vault_id, now);
    assert_eq!(r, Err(VestingError::InvalidState));
}

#[test]
fn test_clawback_within_grace_period() {
    let (mut c, _l) = setup();
    let beneficiary: u64 = 10;
    let now: u64 = 0;

    let vault_id = c.create_vault_full(ADMIN, beneficiary, 5_000, now + 100, now + 10_000, 0, true, false, 0, now).unwrap();

    let returned = c.clawback_vault(ADMIN, vault_id, now + 3_599).unwrap();
    assert_eq!(returned, 5_000);
}

#[test]
fn test_clawback_after_grace_period_panics() {
    let (mut c, _l) = setup();
    let beneficiary: u64 = 10;
    let now: u64 = 0;

    let vault_id = c.create_vault_full(ADMIN, beneficiary, 5_000, now + 100, now + 10_000, 0, true, false, 0, now).unwrap();

    let r = c.clawback_vault(ADMIN, vault_id, now + 3_601);
    assert_eq!(r, Err(VestingError::InvalidState));
}

#[test]
fn test_milestone_unlock_and_claim() {
    let (mut c, mut l) = setup();
    let beneficiary: u64 = 10;
    let now: u64 = 0;

    let vault_id = c.create_vault_full(ADMIN, beneficiary, 1_000, now, now + 1_000, 0, true, false, 0, now).unwrap();

    let milestones = vec![
        Milestone { id: 1, percentage: 50, is_unlocked: false },
        Milestone { id: 2, percentage: 50, is_unlocked: false },
    ];
    c.set_milestones(ADMIN, vault_id, milestones).unwrap();

    c.unlock_milestone(ADMIN, vault_id, 1).unwrap();
    let claimed = c.claim_tokens(&mut l, beneficiary, vault_id, 500, now).unwrap();
    assert_eq!(claimed, 500);

    c.unlock_milestone(ADMIN, vault_id, 2).unwrap();
    let claimed2 = c.claim_tokens(&mut l, beneficiary, vault_id, 500, now).unwrap();
    assert_eq!(claimed2, 500);
}

#[test]
fn test_claim_before_any_milestone_unlocked_panics() {
    let (mut c, mut l) = setup();
    let beneficiary: u64 = 10;
    let now: u64 = 0;

    let vault_id = c.create_vault_full(ADMIN, beneficiary, 1_000, now, now + 1_000, 0, true, false, 0, now).unwrap();

    let milestones = vec![Milestone { id: 1, percentage: 100, is_unlocked: false }];
    c.set_milestones(ADMIN, vault_id, milestones).unwrap();
    let r = c.claim_tokens(&mut l, beneficiary, vault_id, 1, now);
    assert_eq!(r, Err(VestingError::InsufficientBalance));
}

#[test]
fn test_rotate_beneficiary_key() {
    let (mut c, _l) = setup();
    let beneficiary: u64 = 10;
    let new_beneficiary: u64 = 11;
    let now: u64 = 0;

    let vault_id = c.create_vault_full(ADMIN, beneficiary, 1_000, now, now + 1_000, 0, true, false, 0, now).unwrap();

    c.rotate_beneficiary_key(ADMIN, vault_id, new_beneficiary).unwrap();

    let vault = c.get_vault(vault_id).unwrap();
    assert_eq!(vault.owner, new_beneficiary);
}

#[test]
fn test_invariant_holds_after_operations() {
    let (mut c, mut l) = setup();
    let beneficiary: u64 = 10;
    let now: u64 = 0;

    let vault_id = c.create_vault_full(ADMIN, beneficiary, 10_000, now, now + 1_000, 0, true, false, 0, now).unwrap();
    assert!(c.check_invariant());

    c.claim_tokens(&mut l, beneficiary, vault_id, 5_000, now + 500).unwrap();
    assert!(c.check_invariant());

    c.revoke_tokens(ADMIN, vault_id, now + 500).unwrap();
    assert!(c.check_invariant());
}

#[test]
fn test_rescue_basic_no_vaults() {
    let (mut c, mut l) = setup();
    let token_addr: u64 = 501;
    c.add_to_whitelist(ADMIN, token_addr).unwrap();

    l.mint(token_addr, CONTRACT, 5_000).unwrap();

    let rescued = c.rescue_unallocated_tokens(&mut l, ADMIN, token_addr).unwrap();
    assert_eq!(rescued, 5_000);
}

#[test]
fn test_rescue_only_surplus_above_vault_liability() {
    let (mut c, mut l) = setup();
    let token_addr: u64 = 501;
    c.add_to_whitelist(ADMIN, token_addr).unwrap();

    let beneficiary: u64 = 10;
    let now: u64 = 0;

    c.create_vault_full(ADMIN, beneficiary, 3_000, now, now + 1_000, 0, true, false, 0, now).unwrap();

    l.mint(token_addr, CONTRACT, 5_000).unwrap();

    let rescued = c.rescue_unallocated_tokens(&mut l, ADMIN, token_addr).unwrap();
    assert_eq!(rescued, 2_000);
}

#[test]
fn test_rescue_after_partial_claim_adjusts_liability() {
    let (mut c, mut l) = setup();
    let token_addr: u64 = 501;
    c.add_to_whitelist(ADMIN, token_addr).unwrap();

    let beneficiary: u64 = 10;
    let now: u64 = 0;

    let vault_id = c.create_vault_full(ADMIN, beneficiary, 4_000, now, now + 1_000, 0, true, false, 0, now).unwrap();

    c.claim_tokens(&mut l, beneficiary, vault_id, 1_000, now + 1_001).unwrap();

    l.mint(token_addr, CONTRACT, 5_000).unwrap();

    let rescued = c.rescue_unallocated_tokens(&mut l, ADMIN, token_addr).unwrap();
    assert_eq!(rescued, 2_000);
}

#[test]
fn test_rescue_multiple_vaults_correct_liability_sum() {
    let (mut c, mut l) = setup();
    let token_addr: u64 = 501;
    c.add_to_whitelist(ADMIN, token_addr).unwrap();

    let now: u64 = 0;
    for k in 0..3u64 {
        c.create_vault_full(ADMIN, 20 + k, 2_000, now, now + 1_000, 0, true, false, 0, now).unwrap();
    }

    l.mint(token_addr, CONTRACT, 7_000).unwrap();

    let rescued = c.rescue_unallocated_tokens(&mut l, ADMIN, token_addr).unwrap();
    assert_eq!(rescued, 1_000);
}

#[test]
fn test_rescue_after_full_claim_all_tokens_rescuable() {
    let (mut c, mut l) = setup();
    let token_addr: u64 = 501;
    c.add_to_whitelist(ADMIN, token_addr).unwrap();

    let beneficiary: u64 = 10;
    let now: u64 = 0;

    let vault_id = c.create_vault_full(ADMIN, beneficiary, 2_000, now, now + 1_000, 0, true, false, 0, now).unwrap();

    c.claim_tokens(&mut l, beneficiary, vault_id, 2_000, now + 1_001).unwrap();

    l.mint(token_addr, CONTRACT, 500).unwrap();

    let rescued = c.rescue_unallocated_tokens(&mut l, ADMIN, token_addr).unwrap();
    assert_eq!(rescued, 500);
}

#[test]
fn test_rescue_after_revoke_liability_drops_to_zero() {
    let (mut c, mut l) = setup();
    let token_addr: u64 = 501;
    c.add_to_whitelist(ADMIN, token_addr).unwrap();

    let beneficiary: u64 = 10;
    let now: u64 = 0;

    let vault_id = c.create_vault_full(ADMIN, beneficiary, 3_000, now, now + 1_000, 0, true, false, 0, now).unwrap();

    c.revoke_tokens(ADMIN, vault_id, now).unwrap();

    l.mint(token_addr, CONTRACT, 3_000).unwrap();

    let rescued = c.rescue_unallocated_tokens(&mut l, ADMIN, token_addr).unwrap();
    assert_eq!(rescued, 3_000);
}

#[test]
fn test_rescue_tokens_go_to_current_admin_after_transfer() {
    let (mut c, mut l) = setup();
    let token_addr: u64 = 501;
    c.add_to_whitelist(ADMIN, token_addr).unwrap();

    let new_admin: u64 = 2;
    c.propose_new_admin(ADMIN, new_admin).unwrap();
    c.accept_ownership(new_admin).unwrap();

    l.mint(token_addr, CONTRACT, 1_000).unwrap();

    let rescued = c.rescue_unallocated_tokens(&mut l, new_admin, token_addr).unwrap();
    assert_eq!(rescued, 1_000);
    assert_eq!(l.balance_of(token_addr, new_admin), 1_000);
}

#[test]
fn test_rescue_panics_when_no_surplus() {
    let (mut c, mut l) = setup();
    let token_addr: u64 = 501;
    c.add_to_whitelist(ADMIN, token_addr).unwrap();

    let beneficiary: u64 = 10;
    let now: u64 = 0;

    c.create_vault_full(ADMIN, beneficiary, 3_000, now, now + 1_000, 0, true, false, 0, now).unwrap();

    l.mint(token_addr, CONTRACT, 3_000).unwrap();

    let r = c.rescue_unallocated_tokens(&mut l, ADMIN, token_addr);
    assert_eq!(r, Err(VestingError::InsufficientBalance));
}

#[test]
fn test_rescue_panics_when_contract_balance_zero() {
    let (mut c, mut l) = setup();
    let token_addr: u64 = 501;
    c.add_to_whitelist(ADMIN, token_addr).unwrap();

    let r = c.rescue_unallocated_tokens(&mut l, ADMIN, token_addr);
    assert_eq!(r, Err(VestingError::InsufficientBalance));
}

#[test]
fn test_rescue_panics_for_non_whitelisted_token() {
    let (c, mut l) = setup();
    let token_addr: u64 = 501;
    l.mint(token_addr, CONTRACT, 1_000).unwrap();

    let r = c.rescue_unallocated_tokens(&mut l, ADMIN, token_addr);
    assert_eq!(r, Err(VestingError::InvalidArgument));
}

#[test]
fn test_yield_is_distributed_on_claim() {
    let (mut c, mut l) = setup();
    let beneficiary: u64 = 10;
    let now: u64 = 0;

    let vault_id = c.create_vault_full(ADMIN, beneficiary, 10_000, now, now + 1_000, 0, true, false, 0, now).unwrap();

    // simulate yield
    l.mint(MAIN_TOKEN, CONTRACT, 2_000).unwrap();

    let claimed = c.claim_tokens(&mut l, beneficiary, vault_id, 10_000, now + 1_001).unwrap();
    assert_eq!(claimed, 12_000);
}

#[test]
fn test_yield_on_partial_claim() {
    let (mut c, mut l) = setup();
    let beneficiary: u64 = 10;
    let now: u64 = 0;

    let vault_id = c.create_vault_full(ADMIN, beneficiary, 10_000, now, now + 1_000, 0, true, false, 0, now).unwrap();

    l.mint(MAIN_TOKEN, CONTRACT, 2_000).unwrap();

    let claimed = c.claim_tokens(&mut l, beneficiary, vault_id, 5_000, now + 500).unwrap();
    assert_eq!(claimed, 6_000);
}

#[test]
fn test_yield_proportional_with_multiple_vaults() {
    let (mut c, mut l) = setup();
    let now: u64 = 0;

    let v1 = c.create_vault_full(ADMIN, 21, 10_000, now, now + 1_000, 0, true, false, 0, now).unwrap();
    let v2 = c.create_vault_full(ADMIN, 22, 20_000, now, now + 1_000, 0, true, false, 0, now).unwrap();

    l.mint(MAIN_TOKEN, CONTRACT, 6_000).unwrap();

    let claimed1 = c.claim_tokens(&mut l, 21, v1, 10_000, now + 1_001).unwrap();
    let claimed2 = c.claim_tokens(&mut l, 22, v2, 20_000, now + 1_001).unwrap();

    assert_eq!(claimed1, 12_000);
    assert_eq!(claimed2, 24_000);
}

#[test]
fn test_rescue_yield_token_panics() {
    let (c, mut l) = setup();
    let r = c.rescue_unallocated_tokens(&mut l, ADMIN, MAIN_TOKEN);
    assert_eq!(r, Err(VestingError::InvalidArgument));
}

#[test]
fn test_zero_duration_vault_immediate_unlock() {
    let (mut c, _l) = setup();
    let beneficiary: u64 = 10;
    let now: u64 = 0;

    let vault_id = c.create_vault_full(ADMIN, beneficiary, 5_000, now, now, 0, true, false, 0, now).unwrap();

    let claimable = c.get_claimable_amount(vault_id, now).unwrap();
    assert_eq!(claimable, 5_000, "zero-duration vault should unlock 100% immediately");
}

#[test]
fn test_zero_duration_vault_claim_full() {
    let (mut c, mut l) = setup();
    let beneficiary: u64 = 10;
    let now: u64 = 0;

    let vault_id = c.create_vault_full(ADMIN, beneficiary, 10_000, now, now, 0, true, false, 0, now).unwrap();

    let claimed = c.claim_tokens(&mut l, beneficiary, vault_id, 10_000, now).unwrap();
    assert_eq!(claimed, 10_000, "should claim full amount from zero-duration vault");

    let vault = c.get_vault(vault_id).unwrap();
    assert_eq!(vault.released_amount, 10_000);
}

#[test]
fn test_zero_duration_vault_before_start() {
    let (mut c, _l) = setup();
    let beneficiary: u64 = 10;
    let future: u64 = 1_000;

    let vault_id = c.create_vault_full(ADMIN, beneficiary, 5_000, future, future, 0, true, false, 0, 0).unwrap();

    let claimable = c.get_claimable_amount(vault_id, 0).unwrap();
    assert_eq!(claimable, 0, "zero-duration vault should not unlock before start_time");
}

#[test]
fn test_zero_cliff_vault_vests_immediately() {
    let (mut c, _l) = setup();
    let beneficiary: u64 = 10;
    let now: u64 = 0;

    let vault_id = c.create_vault_full(ADMIN, beneficiary, 10_000, now, now + 1_000, 0, true, false, 0, now).unwrap();

    let claimable = c.get_claimable_amount(vault_id, now + 500).unwrap();
    assert!(claimable > 0, "zero-cliff vault should vest from start_time");
}

#[test]
fn test_zero_amount_vault_no_claimable() {
    let (mut c, _l) = setup();
    let beneficiary: u64 = 10;
    let now: u64 = 0;

    let vault_id = c.create_vault_full(ADMIN, beneficiary, 0, now, now + 1_000, 0, true, false, 0, now).unwrap();

    let claimable = c.get_claimable_amount(vault_id, now + 1_001).unwrap();
    assert_eq!(claimable, 0, "zero-amount vault should have nothing claimable");
}

#[test]
fn test_zero_duration_zero_amount_vault() {
    let (mut c, _l) = setup();
    let beneficiary: u64 = 10;
    let now: u64 = 0;

    let vault_id = c.create_vault_full(ADMIN, beneficiary, 0, now, now, 0, true, false, 0, now).unwrap();

    let claimable = c.get_claimable_amount(vault_id, now).unwrap();
    assert_eq!(claimable, 0, "zero-duration + zero-amount vault should have nothing claimable");
}

#[test]
fn test_preview_claimable_at() {
    let (mut c, mut l) = setup();
    let beneficiary: u64 = 10;
    let now: u64 = 0;

    // 10,000 tokens linearly over 1,000 seconds
    let vault_id = c.create_vault_full(ADMIN, beneficiary, 10_000, now, now + 1_000, 0, true, false, 0, now).unwrap();

    assert_eq!(c.preview_claimable_at(vault_id, now).unwrap(), 0);
    assert_eq!(c.preview_claimable_at(vault_id, now + 500).unwrap(), 5_000);
    assert_eq!(c.preview_claimable_at(vault_id, now + 1_000).unwrap(), 10_000);
    assert_eq!(c.preview_claimable_at(vault_id, now + 2_000).unwrap(), 10_000);

    c.claim_tokens(&mut l, beneficiary, vault_id, 2_500, now + 500).unwrap();

    assert_eq!(c.preview_claimable_at(vault_id, now + 500).unwrap(), 2_500);
    assert_eq!(c.preview_claimable_at(vault_id, now + 1_000).unwrap(), 7_500);
}
