use stellar_lend::address::Address;
use stellar_lend::flash_receivers::{BadReceiver, CheapReceiver, FlashLoanReceiver, MaliciousToken, MockReceiver};
use stellar_lend::multisig::{
    get_ms_admins, get_ms_threshold, ms_propose_set_min_cr, ms_set_admins, GovernanceError, ProposalType,
};
use stellar_lend::reentrancy::{global_lock_key, LockTable, ReentrancyGuard, REENTRANCY_ERROR};

fn addr(n: u32) -> Address {
    Address::from_bytes(format!("G{:055}", n).into_bytes())
}

#[test]
fn guard_refuses_reentry_until_released() {
    let mut locks = LockTable::new();
    let g = ReentrancyGuard::new(&mut locks).unwrap();
    assert!(locks.has(&global_lock_key()));
    assert_eq!(ReentrancyGuard::new(&mut locks).err(), Some(REENTRANCY_ERROR));
    assert_eq!(REENTRANCY_ERROR, 7);
    g.release(&mut locks);
    assert!(!locks.has(&global_lock_key()));
    let g2 = ReentrancyGuard::new(&mut locks).unwrap();
    g2.release(&mut locks);
}

#[test]
fn guards_on_different_keys_are_independent() {
    let mut locks = LockTable::new();
    let a = ReentrancyGuard::new_with_key(&mut locks, b"flash".to_vec()).unwrap();
    let b = ReentrancyGuard::new_with_key(&mut locks, b"deposit".to_vec()).unwrap();
    assert!(ReentrancyGuard::new_with_key(&mut locks, b"flash".to_vec()).is_err());
    a.release(&mut locks);
    assert!(locks.has(&b"deposit".to_vec()));
    assert!(!locks.has(&b"flash".to_vec()));
    b.release(&mut locks);
    assert!(!locks.has(&b"deposit".to_vec()));
}

#[test]
fn global_lock_key_is_its_name() {
    assert_eq!(global_lock_key(), b"REENTRANCY_LOCK".to_vec());
}

#[test]
fn multisig_config_checks() {
    let admins = vec![addr(1), addr(2), addr(3)];
    let c = ms_set_admins(admins, 2).unwrap();
    assert_eq!(c.threshold, 2);
    assert_eq!(c.admins.len(), 3);
    assert_eq!(ms_set_admins(Vec::new(), 1).unwrap_err(), GovernanceError::InvalidMultisigConfig);
    assert_eq!(ms_set_admins(vec![addr(1)], 0).unwrap_err(), GovernanceError::InvalidMultisigConfig);
    assert_eq!(ms_set_admins(vec![addr(1), addr(2)], 3).unwrap_err(), GovernanceError::InvalidMultisigConfig);
    assert_eq!(
        ms_set_admins(vec![addr(1), addr(2), addr(1)], 1).unwrap_err(),
        GovernanceError::InvalidMultisigConfig
    );
    assert!(ms_set_admins(vec![addr(1), addr(2)], 2).is_ok());
}

#[test]
fn multisig_getters() {
    assert_eq!(get_ms_threshold(&None), 1);
    assert!(get_ms_admins(&None).is_none());
    let c = ms_set_admins(vec![addr(1), addr(2)], 2).unwrap();
    let some = Some(c);
    assert_eq!(get_ms_threshold(&some), 2);
    let admins = get_ms_admins(&some).unwrap();
    assert_eq!(admins.len(), 2);
    assert_eq!(admins[1].to_bytes(), addr(2).to_bytes());
}

#[test]
fn min_collateral_ratio_proposal_checks() {
    assert_eq!(ms_propose_set_min_cr(10_000), Err(GovernanceError::InvalidProposal));
    assert_eq!(ms_propose_set_min_cr(-5), Err(GovernanceError::InvalidProposal));
    assert_eq!(ms_propose_set_min_cr(11_000), Ok(ProposalType::MinCollateralRatio(11_000)));
}

#[test]
fn flash_receivers_allowances() {
    // 9 bps fee on 1_000_000 is 900
    assert_eq!(MockReceiver::on_flash_loan(1_000_000, 900), Some(1_000_900));
    assert_eq!(FlashLoanReceiver::on_flash_loan(1_000_000, 1_000), Some(1_001_000));
    assert_eq!(CheapReceiver::on_flash_loan(1_000_000, 900), Some(1_000_000));
    assert_eq!(BadReceiver::on_flash_loan(1_000_000, 900), None);
    assert_eq!(MaliciousToken::balance(&addr(1)), 1_000_000);
}
