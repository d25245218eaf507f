use stellar_lend::address::Address;
use stellar_lend::treasury::{default_fee_config, Treasury, TreasuryError, TreasuryFeeConfig};

fn addr(n: u32) -> Address {
    Address::from_bytes(format!("G{:055}", n).into_bytes())
}

fn with_admin() -> (Treasury, Address) {
    let admin = addr(1);
    (Treasury::new(Some(admin.duplicate())), admin)
}

#[test]
fn default_fee_config_is_ten_percent_each() {
    let c = default_fee_config();
    assert_eq!(c, TreasuryFeeConfig { interest_fee_bps: 1000, liquidation_fee_bps: 1000 });
    let (t, _) = with_admin();
    assert_eq!(t.get_fee_config(), c);
}

#[test]
fn set_fee_config_roundtrip() {
    let (mut t, admin) = with_admin();
    let c = TreasuryFeeConfig { interest_fee_bps: 2500, liquidation_fee_bps: 0 };
    let ev = t.set_fee_config(&admin, c, 3).unwrap();
    assert_eq!(ev.interest_fee_bps, 2500);
    assert_eq!(ev.liquidation_fee_bps, 0);
    assert_eq!(ev.timestamp, 3);
    assert_eq!(t.get_fee_config(), c);
}

#[test]
fn set_fee_config_rejects_out_of_range() {
    let (mut t, admin) = with_admin();
    let bad1 = TreasuryFeeConfig { interest_fee_bps: -1, liquidation_fee_bps: 0 };
    let bad2 = TreasuryFeeConfig { interest_fee_bps: 0, liquidation_fee_bps: 10_001 };
    assert_eq!(t.set_fee_config(&admin, bad1, 0).unwrap_err(), TreasuryError::InvalidFee);
    assert_eq!(t.set_fee_config(&admin, bad2, 0).unwrap_err(), TreasuryError::InvalidFee);
    let edge = TreasuryFeeConfig { interest_fee_bps: 10_000, liquidation_fee_bps: 10_000 };
    assert!(t.set_fee_config(&admin, edge, 0).is_ok());
}

#[test]
fn non_admin_is_refused() {
    let (mut t, _) = with_admin();
    let stranger = addr(7);
    let c = TreasuryFeeConfig { interest_fee_bps: 1, liquidation_fee_bps: 1 };
    assert_eq!(t.set_fee_config(&stranger, c, 0).unwrap_err(), TreasuryError::Unauthorized);
    assert_eq!(t.set_treasury(&stranger, &addr(8), 0).unwrap_err(), TreasuryError::Unauthorized);
    assert_eq!(t.claim_reserves(&stranger, &None, &addr(8), 1, 0).unwrap_err(), TreasuryError::Unauthorized);
    assert_eq!(t.get_fee_config(), default_fee_config());
    assert!(t.get_treasury().is_none());
}

#[test]
fn without_admin_everyone_is_refused() {
    let mut t = Treasury::new(None);
    assert_eq!(t.set_treasury(&addr(1), &addr(8), 0).unwrap_err(), TreasuryError::Unauthorized);
}

#[test]
fn set_treasury_roundtrip() {
    let (mut t, admin) = with_admin();
    let tr = addr(5);
    let ev = t.set_treasury(&admin, &tr, 11).unwrap();
    assert_eq!(ev.treasury.to_bytes(), tr.to_bytes());
    assert_eq!(ev.admin.to_bytes(), admin.to_bytes());
    assert_eq!(ev.timestamp, 11);
    assert_eq!(t.get_treasury().unwrap().to_bytes(), tr.to_bytes());
}

#[test]
fn reserve_defaults_to_zero() {
    let (t, _) = with_admin();
    assert_eq!(t.get_reserve_balance(&None), 0);
    assert_eq!(t.get_reserve_balance(&Some(addr(3))), 0);
}

#[test]
fn claim_reserves_reduces_the_reserve() {
    let (mut t, admin) = with_admin();
    let token = Some(addr(3));
    t.set_reserve_balance(&token, 1_000);
    t.set_reserve_balance(&None, 50);
    let (ev, transfer) = t.claim_reserves(&admin, &token, &addr(9), 400, 2).unwrap();
    assert_eq!(ev.amount, 400);
    assert_eq!(transfer.amount, 400);
    assert_eq!(transfer.asset.unwrap().to_bytes(), addr(3).to_bytes());
    assert_eq!(transfer.recipient.to_bytes(), addr(9).to_bytes());
    assert_eq!(ev.asset.unwrap().to_bytes(), addr(3).to_bytes());
    assert_eq!(ev.recipient.to_bytes(), addr(9).to_bytes());
    assert_eq!(t.get_reserve_balance(&token), 600);
    assert_eq!(t.get_reserve_balance(&None), 50);
    let (_, native) = t.claim_reserves(&admin, &None, &addr(9), 50, 2).unwrap();
    assert!(native.asset.is_none());
    assert_eq!(native.amount, 50);
    assert_eq!(native.recipient.to_bytes(), addr(9).to_bytes());
    assert_eq!(t.get_reserve_balance(&None), 0);
}

#[test]
fn claim_reserves_errors() {
    let (mut t, admin) = with_admin();
    let token = Some(addr(3));
    t.set_reserve_balance(&token, 100);
    assert_eq!(t.claim_reserves(&admin, &token, &addr(9), 0, 0).unwrap_err(), TreasuryError::InvalidAmount);
    assert_eq!(t.claim_reserves(&admin, &token, &addr(9), -5, 0).unwrap_err(), TreasuryError::InvalidAmount);
    assert_eq!(t.claim_reserves(&admin, &token, &addr(9), 101, 0).unwrap_err(), TreasuryError::InsufficientReserve);
    assert_eq!(t.get_reserve_balance(&token), 100);
}

#[test]
fn treasury_error_codes() {
    assert_eq!(TreasuryError::Unauthorized.code(), 1);
    assert_eq!(TreasuryError::InvalidAmount.code(), 2);
    assert_eq!(TreasuryError::InsufficientReserve.code(), 3);
    assert_eq!(TreasuryError::Overflow.code(), 4);
    assert_eq!(TreasuryError::TreasuryNotSet.code(), 5);
    assert_eq!(TreasuryError::InvalidFee.code(), 6);
}

#[test]
fn treasury_operations_ask_the_caller_first() {
    let (t, _) = with_admin();
    let stranger = addr(8);
    assert_eq!(t.admin_call_signer(&stranger).to_bytes(), stranger.to_bytes());
    let none = Treasury::new(None);
    assert_eq!(none.admin_call_signer(&stranger).to_bytes(), stranger.to_bytes());
}
