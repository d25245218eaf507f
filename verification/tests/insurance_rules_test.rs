use stellar_lend::address::Address;
use stellar_lend::insurance::{ClaimStatus, InsuranceError, InsurancePool};

fn addr(n: u32) -> Address {
    Address::from_bytes(format!("G{:055}", n).into_bytes())
}

fn ready() -> (InsurancePool, Address, Address) {
    let mut pool = InsurancePool::new();
    let admin = addr(1);
    pool.initialize(&admin).unwrap();
    (pool, admin, addr(2))
}

#[test]
fn operations_before_initialize_fail() {
    let mut pool = InsurancePool::new();
    let a = addr(1);
    let asset = addr(2);
    assert_eq!(pool.fund_pool(100, 0), Err(InsuranceError::NotInitialized));
    assert_eq!(pool.collect_premium(&a, &asset, 100, 0).unwrap_err(), InsuranceError::NotInitialized);
    assert_eq!(pool.submit_claim(&a, &asset, 100, 0).unwrap_err(), InsuranceError::NotInitialized);
    assert_eq!(pool.evaluate_claim(&a, 1, true, 0), Err(InsuranceError::NotInitialized));
    assert_eq!(pool.set_coverage_limit(&a, &asset, 100, 0).unwrap_err(), InsuranceError::NotInitialized);
    assert_eq!(pool.get_analytics().pool_balance, 0);
}

#[test]
fn fund_pool_overflow_leaves_pool_unchanged() {
    let (mut pool, _, _) = ready();
    pool.fund_pool(i128::MAX, 0).unwrap();
    let before = pool.get_analytics();
    assert_eq!(pool.fund_pool(1, 0), Err(InsuranceError::Overflow));
    assert_eq!(pool.get_analytics(), before);
}

#[test]
fn fund_pool_emergency_share_saturates_for_huge_amounts() {
    let (mut pool, _, _) = ready();
    let amount = i128::MAX / 1000;
    pool.fund_pool(amount, 0).unwrap();
    let a = pool.get_analytics();
    assert_eq!(a.pool_balance, amount);
    // amount * 2000 saturates at i128::MAX before the division
    assert_eq!(a.emergency_fund, i128::MAX / 10_000);
}

#[test]
fn fund_pool_event_reports_new_balance() {
    let (mut pool, _, _) = ready();
    pool.fund_pool(500, 1).unwrap();
    let ev = pool.fund_pool(700, 9).unwrap();
    assert_eq!(ev.amount, 700);
    assert_eq!(ev.new_pool_balance, 1_200);
    assert_eq!(ev.timestamp, 9);
    // 20% of 500 is 100, of 700 is 140
    assert_eq!(pool.get_analytics().emergency_fund, 240);
}

#[test]
fn premium_on_empty_pool_uses_maximum_rate() {
    let (mut pool, _, asset) = ready();
    let payer = addr(10);
    let (premium, ev) = pool.collect_premium(&payer, &asset, 10_000, 5).unwrap();
    assert_eq!(premium, 500);
    assert_eq!(pool.get_premium_rate(&asset), 500);
    assert_eq!(ev.premium, 500);
    assert_eq!(ev.timestamp, 5);
    assert_eq!(ev.payer.to_bytes(), payer.to_bytes());
    assert_eq!(ev.asset.to_bytes(), asset.to_bytes());
}

#[test]
fn premium_without_claims_uses_base_rate() {
    let (mut pool, _, asset) = ready();
    pool.fund_pool(1_000_000, 0).unwrap();
    let (premium, _) = pool.collect_premium(&addr(10), &asset, 100_000, 0).unwrap();
    // 100_000 * 50 / 10_000
    assert_eq!(premium, 500);
    assert_eq!(pool.get_premium_rate(&asset), 50);
}

#[test]
fn premium_rises_with_utilisation() {
    let (mut pool, admin, asset) = ready();
    pool.fund_pool(1_000_000, 0).unwrap();
    let (id, _) = pool.submit_claim(&addr(20), &asset, 100_000, 0).unwrap();
    pool.evaluate_claim(&admin, id, true, 0).unwrap();
    // utilisation = 100_000 * 10_000 / 900_000 = 1111 bps
    // rate = 50 + 1111 * 450 / 10_000 = 50 + 49 = 99
    let (premium, _) = pool.collect_premium(&addr(10), &asset, 100_000, 0).unwrap();
    assert_eq!(pool.get_premium_rate(&asset), 99);
    assert_eq!(premium, 990);
}

#[test]
fn premium_rate_defaults_to_base_rate() {
    let (pool, _, asset) = ready();
    assert_eq!(pool.get_premium_rate(&asset), 50);
}

#[test]
fn coverage_limit_defaults_to_maximum() {
    let (pool, _, asset) = ready();
    assert_eq!(pool.get_coverage_limit(&asset), 5000);
}

#[test]
fn coverage_limit_is_per_asset_and_enforced() {
    let (mut pool, admin, asset) = ready();
    let other = addr(3);
    pool.fund_pool(100_000, 0).unwrap();
    let ev = pool.set_coverage_limit(&admin, &asset, 1000, 4).unwrap();
    assert_eq!(ev.limit_bps, 1000);
    assert_eq!(ev.timestamp, 4);
    assert_eq!(ev.asset.to_bytes(), asset.to_bytes());
    assert_eq!(pool.get_coverage_limit(&asset), 1000);
    assert_eq!(pool.get_coverage_limit(&other), 5000);
    // 10% of 100_000 = 10_000
    assert_eq!(pool.submit_claim(&addr(20), &asset, 10_001, 0).unwrap_err(), InsuranceError::ExceedsCoverageLimit);
    assert!(pool.submit_claim(&addr(20), &asset, 10_000, 0).is_ok());
    assert!(pool.submit_claim(&addr(20), &other, 50_000, 0).is_ok());
}

#[test]
fn negative_coverage_limit_fails() {
    let (mut pool, admin, asset) = ready();
    assert_eq!(pool.set_coverage_limit(&admin, &asset, -1, 0).unwrap_err(), InsuranceError::InvalidCoverageLimit);
    assert_eq!(pool.get_coverage_limit(&asset), 5000);
}

#[test]
fn zero_coverage_limit_blocks_all_claims() {
    let (mut pool, admin, asset) = ready();
    pool.fund_pool(100_000, 0).unwrap();
    pool.set_coverage_limit(&admin, &asset, 0, 0).unwrap();
    assert_eq!(pool.submit_claim(&addr(20), &asset, 1, 0).unwrap_err(), InsuranceError::ExceedsCoverageLimit);
}

#[test]
fn submitted_claim_records_its_fields() {
    let (mut pool, admin, asset) = ready();
    pool.fund_pool(100_000, 0).unwrap();
    let claimant = addr(20);
    let (id, ev) = pool.submit_claim(&claimant, &asset, 1_000, 17).unwrap();
    assert_eq!(ev.claim_id, id);
    assert_eq!(ev.amount, 1_000);
    assert_eq!(ev.timestamp, 17);
    assert_eq!(ev.claimant.to_bytes(), claimant.to_bytes());
    let c = pool.get_claim_by_id(id).unwrap();
    assert_eq!(c.id, id);
    assert_eq!(c.status, ClaimStatus::Pending);
    assert_eq!(c.submitted_at, 17);
    assert_eq!(c.resolved_at, 0);
    assert_eq!(c.asset.to_bytes(), asset.to_bytes());
    let res = pool.evaluate_claim(&admin, id, false, 30).unwrap();
    assert_eq!(res.claim_id, id);
    assert!(!res.approved);
    assert_eq!(res.amount, 1_000);
    assert_eq!(res.timestamp, 30);
    assert_eq!(pool.get_claim_by_id(id).unwrap().resolved_at, 30);
    assert_eq!(pool.claim_count(), 1);
}

#[test]
fn claim_zero_does_not_exist() {
    let (mut pool, admin, asset) = ready();
    pool.fund_pool(100_000, 0).unwrap();
    pool.submit_claim(&addr(20), &asset, 1_000, 0).unwrap();
    assert!(pool.get_claim_by_id(0).is_none());
    assert!(pool.get_claim_by_id(2).is_none());
    assert_eq!(pool.evaluate_claim(&admin, 0, true, 0), Err(InsuranceError::ClaimNotFound));
}

#[test]
fn rejected_claim_cannot_be_approved_later() {
    let (mut pool, admin, asset) = ready();
    pool.fund_pool(100_000, 0).unwrap();
    let (id, _) = pool.submit_claim(&addr(20), &asset, 1_000, 0).unwrap();
    pool.evaluate_claim(&admin, id, false, 0).unwrap();
    assert_eq!(pool.evaluate_claim(&admin, id, true, 0), Err(InsuranceError::ClaimNotPending));
    assert_eq!(pool.get_analytics().pool_balance, 100_000);
}

#[test]
fn error_codes_match_contract_errors() {
    let all = [
        (InsuranceError::Unauthorized, 1),
        (InsuranceError::InvalidAmount, 2),
        (InsuranceError::ExceedsCoverageLimit, 3),
        (InsuranceError::ClaimNotFound, 4),
        (InsuranceError::ClaimNotPending, 5),
        (InsuranceError::InsufficientPoolFunds, 6),
        (InsuranceError::InvalidCoverageLimit, 7),
        (InsuranceError::NotInitialized, 8),
        (InsuranceError::AlreadyInitialized, 9),
        (InsuranceError::Overflow, 10),
    ];
    for (e, c) in all.iter() {
        assert_eq!(e.code(), *c);
    }
}

fn signer_bytes(a: Option<Address>) -> Option<Vec<u8>> {
    a.map(|x| x.to_bytes())
}

#[test]
fn initialize_asks_the_new_admin_once() {
    let mut pool = InsurancePool::new();
    let admin = addr(1);
    assert_eq!(signer_bytes(pool.initialize_signer(&admin)), Some(admin.to_bytes()));
    pool.initialize(&admin).unwrap();
    assert_eq!(signer_bytes(pool.initialize_signer(&addr(5))), None);
}

#[test]
fn users_are_asked_after_the_init_and_amount_checks() {
    let fresh = InsurancePool::new();
    let user = addr(7);
    assert_eq!(signer_bytes(fresh.collect_premium_signer(&user, 100)), None);
    assert_eq!(signer_bytes(fresh.submit_claim_signer(&user, 100)), None);
    let (pool, _, _) = ready();
    assert_eq!(signer_bytes(pool.collect_premium_signer(&user, 0)), None);
    assert_eq!(signer_bytes(pool.submit_claim_signer(&user, -1)), None);
    assert_eq!(signer_bytes(pool.collect_premium_signer(&user, 100)), Some(user.to_bytes()));
    // Asked before the coverage check: an empty pool refuses the claim
    // afterwards, with the claimant's signature already owed.
    assert_eq!(signer_bytes(pool.submit_claim_signer(&user, 100)), Some(user.to_bytes()));
}

#[test]
fn admin_operations_ask_only_the_admin() {
    let fresh = InsurancePool::new();
    assert_eq!(signer_bytes(fresh.evaluate_claim_signer(&addr(1))), None);
    let (pool, admin, _) = ready();
    let other = addr(9);
    assert_eq!(signer_bytes(pool.evaluate_claim_signer(&other)), None);
    assert_eq!(signer_bytes(pool.set_coverage_limit_signer(&other)), None);
    assert_eq!(signer_bytes(pool.evaluate_claim_signer(&admin)), Some(admin.to_bytes()));
    assert_eq!(signer_bytes(pool.set_coverage_limit_signer(&admin)), Some(admin.to_bytes()));
}
