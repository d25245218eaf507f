//! Multisig administration.
//!
//! The checks that guard the multisig entry points: a multisig configuration
//! (a non-empty list of distinct admins and a threshold between one and the
//! number of admins) and a proposal to change the minimum collateral ratio
//! (which must exceed 100 %).  A configuration or proposal that passes is
//! handed to governance, which records it.

use vstd::prelude::*;

use crate::address::Address;

verus! {

/// Errors of the multisig checks.
#[derive(Clone, Copy, Debug, PartialEq, Eq, Structural)]
pub enum GovernanceError {
    /// The admin list or threshold is not acceptable
    InvalidMultisigConfig,
    /// The proposal's parameters are not acceptable
    InvalidProposal,
}

/// The multisig admins and the number of approvals a proposal needs.
#[derive(Debug)]
pub struct MultisigConfig {
    pub admins: Vec<Address>,
    pub threshold: u32,
}

/// A governance proposal.
#[derive(Clone, Copy, Debug, PartialEq, Eq, Structural)]
pub enum ProposalType {
    /// Set the minimum collateral ratio (bps).
    MinCollateralRatio(i128),
}

/// Ratio of 100 %, in basis points: the minimum collateral ratio must exceed it.
pub const MIN_CR_FLOOR_BPS: i128 = 10_000;

/// The addresses of `admins` are pairwise distinct.
pub open spec fn distinct_addresses(admins: Seq<Address>) -> bool {
    forall|i: int, j: int| 0 <= i < j < admins.len() ==> #[trigger] admins[i]@ != #[trigger] admins[j]@
}

/// An acceptable multisig configuration.
pub open spec fn valid_multisig(admins: Seq<Address>, threshold: u32) -> bool {
    &&& admins.len() > 0
    &&& 1 <= threshold <= admins.len()
    &&& distinct_addresses(admins)
}

/// Whether two entries of the list are the same address.
fn has_duplicate(admins: &Vec<Address>) -> (r: bool)
    ensures
        r == !distinct_addresses(admins@),
{
    let n = admins.len();
    let mut i: usize = 0;
    while i < n
        invariant
            n == admins@.len(),
            i <= n,
            forall|a: int, b: int| 0 <= a < i && a < b < n ==> #[trigger] admins@[a]@ != #[trigger] admins@[b]@,
        decreases n - i,
    {
        let mut j: usize = i + 1;
        while j < n
            invariant
                n == admins@.len(),
                i < n,
                i + 1 <= j <= n,
                forall|a: int, b: int| 0 <= a < i && a < b < n ==> #[trigger] admins@[a]@ != #[trigger] admins@[b]@,
                forall|b: int| i < b < j ==> admins@[i as int]@ != #[trigger] admins@[b]@,
            decreases n - j,
        {
            if admins[i].same_as(&admins[j]) {
                return true;
            }
            j = j + 1;
        }
        i = i + 1;
    }
    false
}

/// Check a new multisig configuration: at least one admin, no admin twice,
/// and a threshold between one and the number of admins.  Returns the
/// configuration to record.
pub fn ms_set_admins(admins: Vec<Address>, threshold: u32) -> (r: Result<MultisigConfig, GovernanceError>)
    ensures
        valid_multisig(admins@, threshold) ==> (r matches Ok(c) && c.admins@ == admins@ && c.threshold == threshold),
        !valid_multisig(admins@, threshold) ==> (r matches Err(e) && e == GovernanceError::InvalidMultisigConfig),
{
    if admins.len() == 0 || threshold == 0 || threshold as usize > admins.len() {
        return Err(GovernanceError::InvalidMultisigConfig);
    }
    if has_duplicate(&admins) {
        return Err(GovernanceError::InvalidMultisigConfig);
    }
    Ok(MultisigConfig { admins, threshold })
}

/// Check a proposal to set the minimum collateral ratio: it must exceed
/// 100 % (10 000 bps).  Returns the proposal to create.
pub fn ms_propose_set_min_cr(new_ratio: i128) -> (r: Result<ProposalType, GovernanceError>)
    ensures
        new_ratio <= MIN_CR_FLOOR_BPS ==> r == Err::<ProposalType, GovernanceError>(GovernanceError::InvalidProposal),
        new_ratio > MIN_CR_FLOOR_BPS ==> r == Ok::<ProposalType, GovernanceError>(ProposalType::MinCollateralRatio(new_ratio)),
{
    if new_ratio <= MIN_CR_FLOOR_BPS {
        return Err(GovernanceError::InvalidProposal);
    }
    Ok(ProposalType::MinCollateralRatio(new_ratio))
}

/// The multisig threshold: the configured one, else 1.
pub fn get_ms_threshold(config: &Option<MultisigConfig>) -> (r: u32)
    ensures
        r == match config {
            Some(c) => c.threshold,
            None => 1u32,
        },
{
    match config {
        Some(c) => c.threshold,
        None => 1,
    }
}

/// The multisig admins, if a configuration has been recorded.
pub fn get_ms_admins(config: &Option<MultisigConfig>) -> (r: Option<Vec<Address>>)
    ensures
        match config {
            Some(c) => r matches Some(v) && v@.len() == c.admins@.len() && forall|i: int|
                0 <= i < v@.len() ==> (#[trigger] v@[i])@ == c.admins@[i]@,
            None => r is None,
        },
{
    match config {
        Some(c) => {
            let mut out: Vec<Address> = Vec::new();
            let mut i: usize = 0;
            while i < c.admins.len()
                invariant
                    i <= c.admins@.len(),
                    out@.len() == i,
                    forall|j: int| 0 <= j < i ==> (#[trigger] out@[j])@ == c.admins@[j]@,
                decreases c.admins@.len() - i,
            {
                out.push(c.admins[i].duplicate());
                i = i + 1;
            }
            Some(out)
        },
        None => None,
    }
}

/// A configuration is accepted exactly when it names at least one admin, no
/// admin twice, and a threshold between 1 and the number of admins; in
/// particular a single admin with threshold 1 is accepted.
pub proof fn law_multisig_acceptance(admins: Seq<Address>, threshold: u32)
    ensures
        valid_multisig(admins, threshold) <==> (admins.len() >= 1 && 1 <= threshold && threshold <= admins.len()
            && forall|i: int, j: int|
            0 <= i < admins.len() && 0 <= j < admins.len() && i != j ==> admins[i]@ != admins[j]@),
{
    if valid_multisig(admins, threshold) {
        assert forall|i: int, j: int| 0 <= i < admins.len() && 0 <= j < admins.len() && i != j implies admins[i]@
            != admins[j]@ by {
            if i < j {
                assert(admins[i]@ != admins[j]@);
            } else {
                assert(admins[j]@ != admins[i]@);
            }
        }
    }
}

} // verus!
