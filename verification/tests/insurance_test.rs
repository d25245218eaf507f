use stellar_lend::address::Address;
use stellar_lend::insurance::{ClaimStatus, InsuranceError, InsurancePool};

fn addr(n: u32) -> Address {
    Address::from_bytes(format!("G{:055}", n).into_bytes())
}

fn setup() -> (InsurancePool, Address, Address) {
    let mut pool = InsurancePool::new();
    let admin = addr(1);
    let asset = addr(2);
    pool.initialize(&admin).unwrap();
    (pool, admin, asset)
}

// ─── Initialization ───────────────────────────────────────────────────────────

#[test]
fn test_initialize_ok() {
    let mut pool = InsurancePool::new();
    let admin = addr(1);
    pool.initialize(&admin).unwrap();
    let analytics = pool.get_analytics();
    assert_eq!(analytics.pool_balance, 0);
}

#[test]
fn test_initialize_twice_fails() {
    let (mut pool, admin, _) = setup();
    let result = pool.initialize(&admin);
    assert_eq!(result, Err(InsuranceError::AlreadyInitialized));
}

// ─── Fund pool ────────────────────────────────────────────────────────────────

#[test]
fn test_fund_pool_increases_balance() {
    let (mut pool, _, _) = setup();
    pool.fund_pool(1_000_000, 0).unwrap();
    let analytics = pool.get_analytics();
    assert_eq!(analytics.pool_balance, 1_000_000);
    assert_eq!(analytics.total_fee_contributions, 1_000_000);
}

#[test]
fn test_fund_pool_allocates_emergency_fund() {
    let (mut pool, _, _) = setup();
    pool.fund_pool(10_000, 0).unwrap();
    let analytics = pool.get_analytics();
    // 20% of 10_000 = 2_000
    assert_eq!(analytics.emergency_fund, 2_000);
}

#[test]
fn test_fund_pool_zero_fails() {
    let (mut pool, _, _) = setup();
    let result = pool.fund_pool(0, 0);
    assert_eq!(result, Err(InsuranceError::InvalidAmount));
}

#[test]
fn test_fund_pool_negative_fails() {
    let (mut pool, _, _) = setup();
    let result = pool.fund_pool(-1, 0);
    assert_eq!(result, Err(InsuranceError::InvalidAmount));
}

// ─── Coverage limits ─────────────────────────────────────────────────────────

#[test]
fn test_set_coverage_limit_ok() {
    let (mut pool, admin, asset) = setup();
    pool.set_coverage_limit(&admin, &asset, 3000, 0).unwrap();
    assert_eq!(pool.get_coverage_limit(&asset), 3000);
}

#[test]
fn test_set_coverage_limit_exceeds_max_fails() {
    let (mut pool, admin, asset) = setup();
    let result = pool.set_coverage_limit(&admin, &asset, 5001, 0);
    assert_eq!(result.unwrap_err(), InsuranceError::InvalidCoverageLimit);
}

#[test]
fn test_set_coverage_limit_unauthorized_fails() {
    let (mut pool, _, asset) = setup();
    let not_admin = addr(99);
    let result = pool.set_coverage_limit(&not_admin, &asset, 1000, 0);
    assert_eq!(result.unwrap_err(), InsuranceError::Unauthorized);
}

// ─── Premium collection ───────────────────────────────────────────────────────

#[test]
fn test_collect_premium_updates_pool() {
    let (mut pool, _, asset) = setup();
    pool.fund_pool(1_000_000, 0).unwrap();
    let payer = addr(10);
    let (premium, _) = pool.collect_premium(&payer, &asset, 100_000, 0).unwrap();
    assert!(premium > 0);
    let analytics = pool.get_analytics();
    assert_eq!(analytics.total_premiums_collected, premium);
    assert_eq!(analytics.pool_balance, 1_000_000 + premium);
}

#[test]
fn test_collect_premium_zero_coverage_fails() {
    let (mut pool, _, asset) = setup();
    let payer = addr(10);
    let result = pool.collect_premium(&payer, &asset, 0, 0);
    assert_eq!(result.unwrap_err(), InsuranceError::InvalidAmount);
}

#[test]
fn test_premium_rate_is_dynamic() {
    let (mut pool, _, asset) = setup();
    pool.fund_pool(1_000_000, 0).unwrap();
    let payer = addr(10);
    pool.collect_premium(&payer, &asset, 100_000, 0).unwrap();
    let rate = pool.get_premium_rate(&asset);
    assert!(rate >= 10 && rate <= 500);
}

// ─── Claim submission ─────────────────────────────────────────────────────────

#[test]
fn test_submit_claim_ok() {
    let (mut pool, _, asset) = setup();
    pool.fund_pool(1_000_000, 0).unwrap();
    let claimant = addr(20);
    let (id, _) = pool.submit_claim(&claimant, &asset, 100_000, 0).unwrap();
    assert_eq!(id, 1);
    let claim = pool.get_claim_by_id(id).unwrap();
    assert_eq!(claim.amount, 100_000);
    assert_eq!(claim.claimant.to_bytes(), claimant.to_bytes());
}

#[test]
fn test_submit_claim_exceeds_limit_fails() {
    let (mut pool, _, asset) = setup();
    pool.fund_pool(1_000_000, 0).unwrap();
    let claimant = addr(20);
    // Default limit 50% = 500_000; claim 600_000 should fail
    let result = pool.submit_claim(&claimant, &asset, 600_000, 0);
    assert_eq!(result.unwrap_err(), InsuranceError::ExceedsCoverageLimit);
}

#[test]
fn test_submit_claim_zero_fails() {
    let (mut pool, _, asset) = setup();
    let claimant = addr(20);
    let result = pool.submit_claim(&claimant, &asset, 0, 0);
    assert_eq!(result.unwrap_err(), InsuranceError::InvalidAmount);
}

#[test]
fn test_submit_claim_increments_id() {
    let (mut pool, _, asset) = setup();
    pool.fund_pool(1_000_000, 0).unwrap();
    let claimant = addr(20);
    let (id1, _) = pool.submit_claim(&claimant, &asset, 10_000, 0).unwrap();
    let (id2, _) = pool.submit_claim(&claimant, &asset, 10_000, 0).unwrap();
    assert_eq!(id2, id1 + 1);
}

// ─── Claim evaluation ─────────────────────────────────────────────────────────

#[test]
fn test_approve_claim_deducts_pool() {
    let (mut pool, admin, asset) = setup();
    pool.fund_pool(1_000_000, 0).unwrap();
    let claimant = addr(20);
    let (id, _) = pool.submit_claim(&claimant, &asset, 100_000, 0).unwrap();
    pool.evaluate_claim(&admin, id, true, 0).unwrap();
    let analytics = pool.get_analytics();
    assert_eq!(analytics.pool_balance, 900_000);
    assert_eq!(analytics.total_claims_paid, 100_000);
    let claim = pool.get_claim_by_id(id).unwrap();
    assert_eq!(claim.status, ClaimStatus::Approved);
}

#[test]
fn test_reject_claim_does_not_deduct_pool() {
    let (mut pool, admin, asset) = setup();
    pool.fund_pool(1_000_000, 0).unwrap();
    let claimant = addr(20);
    let (id, _) = pool.submit_claim(&claimant, &asset, 100_000, 0).unwrap();
    pool.evaluate_claim(&admin, id, false, 0).unwrap();
    let analytics = pool.get_analytics();
    assert_eq!(analytics.pool_balance, 1_000_000);
    assert_eq!(analytics.total_claims_paid, 0);
    let claim = pool.get_claim_by_id(id).unwrap();
    assert_eq!(claim.status, ClaimStatus::Rejected);
}

#[test]
fn test_evaluate_nonexistent_claim_fails() {
    let (mut pool, admin, _) = setup();
    let result = pool.evaluate_claim(&admin, 999, true, 0);
    assert_eq!(result, Err(InsuranceError::ClaimNotFound));
}

#[test]
fn test_evaluate_already_resolved_claim_fails() {
    let (mut pool, admin, asset) = setup();
    pool.fund_pool(1_000_000, 0).unwrap();
    let claimant = addr(20);
    let (id, _) = pool.submit_claim(&claimant, &asset, 100_000, 0).unwrap();
    pool.evaluate_claim(&admin, id, true, 0).unwrap();
    let result = pool.evaluate_claim(&admin, id, true, 0);
    assert_eq!(result, Err(InsuranceError::ClaimNotPending));
}

#[test]
fn test_evaluate_unauthorized_fails() {
    let (mut pool, _, asset) = setup();
    pool.fund_pool(1_000_000, 0).unwrap();
    let claimant = addr(20);
    let (id, _) = pool.submit_claim(&claimant, &asset, 100_000, 0).unwrap();
    let not_admin = addr(99);
    let result = pool.evaluate_claim(&not_admin, id, true, 0);
    assert_eq!(result, Err(InsuranceError::Unauthorized));
}

#[test]
fn test_approve_claim_protects_emergency_fund() {
    let (mut pool, admin, asset) = setup();
    // Pool=10_000, emergency=2_000, available=8_000
    pool.fund_pool(10_000, 0).unwrap();
    let claimant = addr(20);
    // First claim: 4_999 (within 50% limit of 10_000 pool)
    let (id1, _) = pool.submit_claim(&claimant, &asset, 4_999, 0).unwrap();
    // Approve it: pool becomes 5_001, emergency still 2_000, available = 3_001
    pool.evaluate_claim(&admin, id1, true, 0).unwrap();
    // Pool=5_001, limit=50%=2_500, claim 2_499 passes submit
    let (id2, _) = pool.submit_claim(&claimant, &asset, 2_499, 0).unwrap();
    pool.evaluate_claim(&admin, id2, true, 0).unwrap();
    let analytics = pool.get_analytics();
    // Pool drained: 10_000 - 4_999 - 2_499 = 2_502, emergency still 2_000
    assert_eq!(analytics.pool_balance, 2_502);
    assert_eq!(analytics.emergency_fund, 2_000);
    assert_eq!(analytics.available_balance, 502);
    // 503 passes submit (50% of 2_502 = 1_251) but exceeds available = 502
    let (id3, _) = pool.submit_claim(&claimant, &asset, 503, 0).unwrap();
    let result = pool.evaluate_claim(&admin, id3, true, 0);
    assert_eq!(result, Err(InsuranceError::InsufficientPoolFunds));
}

// ─── Analytics ────────────────────────────────────────────────────────────────

#[test]
fn test_analytics_available_balance_excludes_emergency_fund() {
    let (mut pool, _, _) = setup();
    pool.fund_pool(10_000, 0).unwrap();
    let analytics = pool.get_analytics();
    // available = pool - emergency = 10_000 - 2_000 = 8_000
    assert_eq!(analytics.available_balance, 8_000);
}

#[test]
fn test_analytics_initial_state() {
    let (pool, _, _) = setup();
    let analytics = pool.get_analytics();
    assert_eq!(analytics.pool_balance, 0);
    assert_eq!(analytics.emergency_fund, 0);
    assert_eq!(analytics.total_claims_paid, 0);
    assert_eq!(analytics.total_premiums_collected, 0);
    assert_eq!(analytics.total_fee_contributions, 0);
}
