//! Flash-loan callback receivers and a token that exercise the lender.
//!
//! A receiver's `on_flash_loan` callback decides how much of the borrowed
//! asset it allows the lender to pull back (the host then records that
//! allowance with the token): the amount plus the fee when it repays, less
//! when it misbehaves, nothing when it does not repay.

use vstd::prelude::*;

use crate::address::Address;

verus! {

/// Fixed balance that `MaliciousToken` reports for every account.
pub const MALICIOUS_TOKEN_BALANCE: i128 = 1_000_000;

/// A receiver that repays the loan and its fee.
pub struct MockReceiver;

/// A receiver that repays only the principal, not the fee.
pub struct CheapReceiver;

/// A receiver that repays the loan and its fee while the lender's guard is
/// active.
pub struct FlashLoanReceiver;

/// A receiver that does not repay.
pub struct BadReceiver;

/// A token whose transfers try to re-enter the lending contract and that
/// reports a fixed balance.
pub struct MaliciousToken;

impl MockReceiver {
    /// Allow the lender to pull back the amount plus the fee.
    pub fn on_flash_loan(amount: i128, fee: i128) -> (allowance: Option<i128>)
        requires
            i128::MIN <= amount + fee <= i128::MAX,
        ensures
            allowance == Some((amount + fee) as i128),
    {
        Some(amount + fee)
    }
}

impl CheapReceiver {
    /// Allow the lender to pull back only the principal.
    pub fn on_flash_loan(amount: i128, fee: i128) -> (allowance: Option<i128>)
        ensures
            allowance == Some(amount),
    {
        Some(amount)
    }
}

impl FlashLoanReceiver {
    /// Allow the lender to pull back the amount plus the fee.
    pub fn on_flash_loan(amount: i128, fee: i128) -> (allowance: Option<i128>)
        requires
            i128::MIN <= amount + fee <= i128::MAX,
        ensures
            allowance == Some((amount + fee) as i128),
    {
        let total = amount + fee;
        Some(total)
    }
}

impl BadReceiver {
    /// Allow nothing: the loan is not repaid.
    pub fn on_flash_loan(amount: i128, fee: i128) -> (allowance: Option<i128>)
        ensures
            allowance is None,
    {
        None
    }
}

impl MaliciousToken {
    /// The balance of any account: always enough.
    pub fn balance(id: &Address) -> (r: i128)
        ensures
            r == MALICIOUS_TOKEN_BALANCE,
    {
        MALICIOUS_TOKEN_BALANCE
    }
}

} // verus!
