use stellar_lend::address::Address;
use stellar_lend::insurance::{ClaimStatus, InsuranceClaim, InsurancePool, PoolParts};
use stellar_lend::multi_collateral::{CollateralBook, CollateralParts};
use stellar_lend::reentrancy::LockTable;
use stellar_lend::treasury::{Treasury, TreasuryParts};

fn addr(n: u32) -> Address {
    Address::from_bytes(format!("G{:055}", n).into_bytes())
}

fn empty_parts() -> PoolParts {
    PoolParts {
        admin: Some(addr(1)),
        pool_balance: 1_000,
        emergency_fund: 200,
        coverage_limits: Vec::new(),
        premium_rates: Vec::new(),
        total_claims_paid: 0,
        total_premiums_collected: 0,
        total_fee_contributions: 1_000,
        claims: Vec::new(),
    }
}

fn claim(id: u64, amount: i128) -> InsuranceClaim {
    InsuranceClaim {
        id,
        claimant: addr(5),
        asset: addr(2),
        amount,
        status: ClaimStatus::Pending,
        submitted_at: 0,
        resolved_at: 0,
    }
}

#[test]
fn pool_survives_storage_roundtrip() {
    let mut pool = InsurancePool::new();
    let admin = addr(1);
    let asset = addr(2);
    pool.initialize(&admin).unwrap();
    pool.fund_pool(100_000, 0).unwrap();
    pool.set_coverage_limit(&admin, &asset, 2_000, 0).unwrap();
    pool.collect_premium(&addr(3), &asset, 10_000, 0).unwrap();
    let (id, _) = pool.submit_claim(&addr(4), &asset, 1_000, 0).unwrap();
    let before = pool.get_analytics();
    let reloaded = InsurancePool::from_parts(pool.into_parts()).unwrap();
    assert_eq!(reloaded.get_analytics(), before);
    assert_eq!(reloaded.get_coverage_limit(&asset), 2_000);
    assert_eq!(reloaded.get_premium_rate(&asset), 50);
    assert_eq!(reloaded.get_claim_by_id(id).unwrap().amount, 1_000);
}

#[test]
fn pool_parts_are_checked() {
    assert!(InsurancePool::from_parts(empty_parts()).is_some());
    let mut p = empty_parts();
    p.emergency_fund = 2_000;
    assert!(InsurancePool::from_parts(p).is_none());
    let mut p = empty_parts();
    p.coverage_limits = vec![(addr(2), 100), (addr(2), 200)];
    assert!(InsurancePool::from_parts(p).is_none());
    let mut p = empty_parts();
    p.coverage_limits = vec![(addr(2), 5_001)];
    assert!(InsurancePool::from_parts(p).is_none());
    let mut p = empty_parts();
    p.premium_rates = vec![(addr(2), 9)];
    assert!(InsurancePool::from_parts(p).is_none());
    let mut p = empty_parts();
    p.claims = vec![claim(2, 10)];
    assert!(InsurancePool::from_parts(p).is_none());
    let mut p = empty_parts();
    p.claims = vec![claim(1, 0)];
    assert!(InsurancePool::from_parts(p).is_none());
    let mut p = empty_parts();
    p.claims = vec![claim(1, 10), claim(2, 20)];
    let pool = InsurancePool::from_parts(p).unwrap();
    assert_eq!(pool.claim_count(), 2);
}

#[test]
fn treasury_survives_storage_roundtrip() {
    let admin = addr(1);
    let mut t = Treasury::new(Some(admin.duplicate()));
    t.set_reserve_balance(&Some(addr(3)), 77);
    t.set_treasury(&admin, &addr(9), 0).unwrap();
    let t2 = Treasury::from_parts(t.into_parts()).unwrap();
    assert_eq!(t2.get_reserve_balance(&Some(addr(3))), 77);
    assert_eq!(t2.get_treasury().unwrap().to_bytes(), addr(9).to_bytes());
    let dup = TreasuryParts {
        admin: None,
        treasury: None,
        fee_config: None,
        native_reserve: 0,
        token_reserves: vec![(addr(3), 1), (addr(3), 2)],
    };
    assert!(Treasury::from_parts(dup).is_none());
}

#[test]
fn collateral_survives_storage_roundtrip() {
    let mut book = CollateralBook::new();
    let user = addr(1);
    book.set_user_asset_collateral(&user, &addr(2), 40);
    book.set_collateral_factor(&addr(2), 5_000);
    let b2 = CollateralBook::from_parts(book.into_parts()).unwrap();
    assert_eq!(b2.get_user_asset_collateral(&user, &addr(2)), 40);
    assert_eq!(b2.calculate_total_collateral_value(&user), Ok(20));
    let dup_inner = CollateralParts {
        asset_collateral: vec![(addr(1), vec![(addr(2), 1), (addr(2), 2)])],
        asset_lists: Vec::new(),
        collateral_factors: Vec::new(),
        oracle_prices: Vec::new(),
    };
    assert!(CollateralBook::from_parts(dup_inner).is_none());
    let dup_outer = CollateralParts {
        asset_collateral: vec![(addr(1), Vec::new()), (addr(1), Vec::new())],
        asset_lists: Vec::new(),
        collateral_factors: Vec::new(),
        oracle_prices: Vec::new(),
    };
    assert!(CollateralBook::from_parts(dup_outer).is_none());
    let unlisted_balance = CollateralParts {
        asset_collateral: vec![(addr(1), vec![(addr(2), 7)])],
        asset_lists: Vec::new(),
        collateral_factors: Vec::new(),
        oracle_prices: Vec::new(),
    };
    assert!(CollateralBook::from_parts(unlisted_balance).is_none());
    let repeated_asset = CollateralParts {
        asset_collateral: vec![(addr(1), vec![(addr(2), 7)])],
        asset_lists: vec![(addr(1), vec![addr(2), addr(2)])],
        collateral_factors: Vec::new(),
        oracle_prices: Vec::new(),
    };
    assert!(CollateralBook::from_parts(repeated_asset).is_none());
    let negative_balance = CollateralParts {
        asset_collateral: vec![(addr(1), vec![(addr(2), -7)])],
        asset_lists: vec![(addr(1), vec![addr(2)])],
        collateral_factors: Vec::new(),
        oracle_prices: Vec::new(),
    };
    assert!(CollateralBook::from_parts(negative_balance).is_none());
}

#[test]
fn lock_table_survives_storage_roundtrip() {
    let t = LockTable::from_keys(vec![b"a".to_vec(), b"b".to_vec()]).unwrap();
    let keys = t.into_keys();
    let t2 = LockTable::from_keys(keys).unwrap();
    assert!(t2.has(&b"a".to_vec()));
    assert!(!t2.has(&b"c".to_vec()));
    assert!(LockTable::from_keys(vec![b"a".to_vec(), b"a".to_vec()]).is_none());
}
