use stellar_lend::address::Address;
use stellar_lend::multi_collateral::{CollateralBook, MultiCollateralError};

fn addr(n: u32) -> Address {
    Address::from_bytes(format!("G{:055}", n).into_bytes())
}

/// Records a position as a deposit of `amount` of `asset` by `user` leaves it.
fn record_deposit(book: &mut CollateralBook, user: &Address, asset: &Address, amount: i128) {
    let prev = book.get_user_asset_collateral(user, asset);
    book.set_user_asset_collateral(user, asset, prev + amount);
}

/// Records a position as a withdrawal of `amount` of `asset` by `user` leaves it.
fn record_withdrawal(book: &mut CollateralBook, user: &Address, asset: &Address, amount: i128) {
    let prev = book.get_user_asset_collateral(user, asset);
    assert!(amount <= prev);
    book.set_user_asset_collateral(user, asset, prev - amount);
}

#[test]
fn test_deposit_records_per_asset_balance() {
    let mut book = CollateralBook::new();
    let user = addr(1);
    let asset = addr(2);
    book.set_collateral_factor(&asset, 7500);
    record_deposit(&mut book, &user, &asset, 1000);
    assert_eq!(book.get_user_asset_collateral(&user, &asset), 1000);
}

#[test]
fn test_deposit_multiple_assets_tracked_independently() {
    let mut book = CollateralBook::new();
    let user = addr(1);
    let asset_a = addr(2);
    let asset_b = addr(3);
    book.set_collateral_factor(&asset_a, 7500);
    book.set_collateral_factor(&asset_b, 7500);
    record_deposit(&mut book, &user, &asset_a, 500);
    record_deposit(&mut book, &user, &asset_b, 300);
    assert_eq!(book.get_user_asset_collateral(&user, &asset_a), 500);
    assert_eq!(book.get_user_asset_collateral(&user, &asset_b), 300);
}

#[test]
fn test_deposit_same_asset_twice_accumulates() {
    let mut book = CollateralBook::new();
    let user = addr(1);
    let asset = addr(2);
    book.set_collateral_factor(&asset, 10000);
    record_deposit(&mut book, &user, &asset, 400);
    record_deposit(&mut book, &user, &asset, 600);
    assert_eq!(book.get_user_asset_collateral(&user, &asset), 1000);
}

#[test]
fn test_asset_list_populated_on_first_deposit() {
    let mut book = CollateralBook::new();
    let user = addr(1);
    let asset = addr(2);
    book.set_collateral_factor(&asset, 10000);
    assert_eq!(book.get_user_asset_list(&user).len(), 0);
    record_deposit(&mut book, &user, &asset, 100);
    assert_eq!(book.get_user_asset_list(&user).len(), 1);
}

#[test]
fn test_asset_list_no_duplicates() {
    let mut book = CollateralBook::new();
    let user = addr(1);
    let asset = addr(2);
    book.set_collateral_factor(&asset, 10000);
    record_deposit(&mut book, &user, &asset, 100);
    record_deposit(&mut book, &user, &asset, 200);
    // Should still be 1, not 2
    assert_eq!(book.get_user_asset_list(&user).len(), 1);
}

#[test]
fn test_asset_list_multiple_assets() {
    let mut book = CollateralBook::new();
    let user = addr(1);
    let asset_a = addr(2);
    let asset_b = addr(3);
    let asset_c = addr(4);
    for a in [&asset_a, &asset_b, &asset_c] {
        book.set_collateral_factor(a, 7500);
    }
    record_deposit(&mut book, &user, &asset_a, 100);
    record_deposit(&mut book, &user, &asset_b, 200);
    record_deposit(&mut book, &user, &asset_c, 300);
    assert_eq!(book.get_user_asset_list(&user).len(), 3);
}

#[test]
fn test_withdraw_updates_per_asset_balance() {
    let mut book = CollateralBook::new();
    let user = addr(1);
    let asset = addr(2);
    book.set_collateral_factor(&asset, 10000);
    record_deposit(&mut book, &user, &asset, 1000);
    record_withdrawal(&mut book, &user, &asset, 400);
    assert_eq!(book.get_user_asset_collateral(&user, &asset), 600);
}

#[test]
fn test_full_withdrawal_removes_asset_from_list() {
    let mut book = CollateralBook::new();
    let user = addr(1);
    let asset = addr(2);
    book.set_collateral_factor(&asset, 10000);
    record_deposit(&mut book, &user, &asset, 500);
    assert_eq!(book.get_user_asset_list(&user).len(), 1);
    record_withdrawal(&mut book, &user, &asset, 500);
    assert_eq!(book.get_user_asset_list(&user).len(), 0);
    assert_eq!(book.get_user_asset_collateral(&user, &asset), 0);
}

#[test]
fn test_partial_withdrawal_keeps_asset_in_list() {
    let mut book = CollateralBook::new();
    let user = addr(1);
    let asset = addr(2);
    book.set_collateral_factor(&asset, 10000);
    record_deposit(&mut book, &user, &asset, 500);
    record_withdrawal(&mut book, &user, &asset, 200);
    assert_eq!(book.get_user_asset_list(&user).len(), 1);
    assert_eq!(book.get_user_asset_collateral(&user, &asset), 300);
}

#[test]
fn test_total_collateral_value_zero_for_legacy_user() {
    let book = CollateralBook::new();
    let user = addr(1);
    assert_eq!(book.calculate_total_collateral_value(&user), Ok(0));
}

#[test]
fn test_total_collateral_value_single_asset_no_oracle() {
    let mut book = CollateralBook::new();
    let user = addr(1);
    let asset = addr(2);
    book.set_collateral_factor(&asset, 7500);
    record_deposit(&mut book, &user, &asset, 1000);
    // value = 1000 * 1_00_000_000 / 1_00_000_000 * 7500 / 10000 = 750
    assert_eq!(book.calculate_total_collateral_value(&user), Ok(750));
}

#[test]
fn test_total_collateral_value_two_assets() {
    let mut book = CollateralBook::new();
    let user = addr(1);
    let asset_a = addr(2);
    let asset_b = addr(3);
    book.set_collateral_factor(&asset_a, 10000);
    book.set_collateral_factor(&asset_b, 5000);
    record_deposit(&mut book, &user, &asset_a, 2000);
    record_deposit(&mut book, &user, &asset_b, 1000);
    // asset_a: 2000, asset_b: 500
    assert_eq!(book.calculate_total_collateral_value(&user), Ok(2500));
}

#[test]
fn test_per_asset_view_unrelated_to_other_user() {
    let mut book = CollateralBook::new();
    let user_a = addr(1);
    let user_b = addr(4);
    let asset = addr(2);
    book.set_collateral_factor(&asset, 10000);
    record_deposit(&mut book, &user_a, &asset, 1000);
    assert_eq!(book.get_user_asset_collateral(&user_b, &asset), 0);
    assert_eq!(book.get_user_asset_list(&user_b).len(), 0);
    assert_eq!(book.get_user_asset_collateral(&user_a, &asset), 1000);
}

#[test]
fn test_zero_balance_asset_not_in_list_by_default() {
    let book = CollateralBook::new();
    let user = addr(1);
    let asset = addr(2);
    assert_eq!(book.get_user_asset_collateral(&user, &asset), 0);
    assert_eq!(book.get_user_asset_list(&user).len(), 0);
}

#[test]
fn oracle_price_scales_the_value() {
    let mut book = CollateralBook::new();
    let user = addr(1);
    let asset = addr(2);
    book.set_oracle_price(&asset, 250_000_000); // 2.5 debt units per unit
    book.set_collateral_factor(&asset, 8000);
    record_deposit(&mut book, &user, &asset, 1_000);
    // 1000 * 2.5 = 2500, * 80% = 2000
    assert_eq!(book.calculate_total_collateral_value(&user), Ok(2000));
}

#[test]
fn divisions_round_toward_zero() {
    let mut book = CollateralBook::new();
    let user = addr(1);
    let asset = addr(2);
    book.set_oracle_price(&asset, 150_000_000);
    book.set_collateral_factor(&asset, 3333);
    record_deposit(&mut book, &user, &asset, 3);
    // 3 * 1.5 = 4 (4.5 truncated), 4 * 3333 / 10000 = 1
    assert_eq!(book.calculate_total_collateral_value(&user), Ok(1));
}

#[test]
fn zero_balances_are_skipped() {
    let mut book = CollateralBook::new();
    let user = addr(1);
    let a = addr(2);
    let b = addr(3);
    record_deposit(&mut book, &user, &a, 700);
    record_deposit(&mut book, &user, &b, 300);
    book.set_user_asset_collateral(&user, &b, 0);
    // b's huge price would overflow if it were not skipped
    book.set_oracle_price(&b, i128::MAX);
    assert_eq!(book.calculate_total_collateral_value(&user), Ok(700));
    assert!(book.has_multi_asset_collateral(&user));
}

#[test]
fn overflow_is_reported() {
    let mut book = CollateralBook::new();
    let user = addr(1);
    let asset = addr(2);
    book.set_oracle_price(&asset, i128::MAX / 2);
    record_deposit(&mut book, &user, &asset, 3);
    assert_eq!(book.calculate_total_collateral_value(&user), Err(MultiCollateralError::Overflow));
}

#[test]
fn has_multi_asset_collateral_follows_the_list() {
    let mut book = CollateralBook::new();
    let user = addr(1);
    assert!(!book.has_multi_asset_collateral(&user));
    record_deposit(&mut book, &user, &addr(2), 5);
    assert!(book.has_multi_asset_collateral(&user));
    let list = book.get_user_asset_list(&user);
    assert_eq!(list.len(), 1);
    assert_eq!(list[0].to_bytes(), addr(2).to_bytes());
    book.set_user_asset_collateral(&user, &addr(2), 0);
    assert_eq!(book.get_user_asset_list(&user).len(), 0);
    assert!(!book.has_multi_asset_collateral(&user));
}

#[test]
fn asset_list_names_each_held_asset_once() {
    let mut book = CollateralBook::new();
    let user = addr(1);
    record_deposit(&mut book, &user, &addr(2), 10);
    record_deposit(&mut book, &user, &addr(3), 20);
    record_deposit(&mut book, &user, &addr(2), 5);
    let list = book.get_user_asset_list(&user);
    assert_eq!(list.len(), 2);
    assert_eq!(list[0].to_bytes(), addr(2).to_bytes());
    assert_eq!(list[1].to_bytes(), addr(3).to_bytes());
    book.set_user_asset_collateral(&user, &addr(2), 0);
    let list = book.get_user_asset_list(&user);
    assert_eq!(list.len(), 1);
    assert_eq!(list[0].to_bytes(), addr(3).to_bytes());
    // The repeated deposit of asset 2 is counted once, at its full balance.
    book.set_collateral_factor(&addr(3), 10_000);
    assert_eq!(book.calculate_total_collateral_value(&user), Ok(20));
}

#[test]
fn multi_collateral_error_codes() {
    assert_eq!(MultiCollateralError::Overflow.code(), 1);
    assert_eq!(MultiCollateralError::AssetNotFound.code(), 2);
}
