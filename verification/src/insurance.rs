//! Insurance pool.
//!
//! A self-funded insurance pool that
//! - accumulates protocol fee contributions, setting a share aside as an
//!   emergency fund;
//! - prices coverage premiums dynamically from the pool's utilisation;
//! - takes claims, limited per asset to a share of the pool balance, and lets
//!   the admin approve or reject them, paying approved claims only from the
//!   part of the pool that is not the emergency fund;
//! - reports analytics on the pool's health.
//!
//! `InsurancePool` holds the pool's whole state.  Its abstract view is a
//! `PoolView`; every operation is specified by an error function (which error,
//! if any, the operation reports on a state) and a successor function (the
//! state after a successful call).  A failed operation leaves the state as it
//! was, as the host discards the writes of a failed invocation.

use vstd::prelude::*;

use crate::address::{distinct_keys, entries_map, lemma_entries_map_value, opt_view, Address, AddressMap};
use crate::arith::{clamp, clamp_i128, div_toward_zero, in_i128, sat, saturating_add, saturating_mul, saturating_sub, BPS_SCALE};

verus! {

/// Maximum coverage limit per asset, in basis points of the pool balance (50 %).
pub const MAX_COVERAGE_LIMIT_BPS: i128 = 5000;

/// Share of every fee contribution set aside as emergency fund (20 %).
pub const EMERGENCY_FUND_BPS: i128 = 2000;

/// Lowest premium rate, in basis points (0.1 %).
pub const MIN_PREMIUM_BPS: i128 = 10;

/// Highest premium rate, in basis points (5 %).
pub const MAX_PREMIUM_BPS: i128 = 500;

/// Base premium rate, in basis points (0.5 %).
pub const BASE_PREMIUM_BPS: i128 = 50;

/// Errors of the insurance pool.
#[derive(Clone, Copy, Debug, PartialEq, Eq, Structural, PartialOrd, Ord)]
pub enum InsuranceError {
    /// Caller is not the protocol admin
    Unauthorized,
    /// Amount is zero or negative
    InvalidAmount,
    /// Claim amount exceeds per-asset coverage limit
    ExceedsCoverageLimit,
    /// Claim ID does not exist
    ClaimNotFound,
    /// Claim is not in Pending state
    ClaimNotPending,
    /// Pool has insufficient funds to pay claim
    InsufficientPoolFunds,
    /// Coverage limit bps out of range (0..=MAX_COVERAGE_LIMIT_BPS)
    InvalidCoverageLimit,
    /// Pool not yet initialized
    NotInitialized,
    /// Pool already initialized
    AlreadyInitialized,
    /// Arithmetic overflow
    Overflow,
}

impl InsuranceError {
    /// The error's contract error code.
    pub fn code(&self) -> (r: u32)
        ensures
            r == match *self {
                InsuranceError::Unauthorized => 1u32,
                InsuranceError::InvalidAmount => 2u32,
                InsuranceError::ExceedsCoverageLimit => 3u32,
                InsuranceError::ClaimNotFound => 4u32,
                InsuranceError::ClaimNotPending => 5u32,
                InsuranceError::InsufficientPoolFunds => 6u32,
                InsuranceError::InvalidCoverageLimit => 7u32,
                InsuranceError::NotInitialized => 8u32,
                InsuranceError::AlreadyInitialized => 9u32,
                InsuranceError::Overflow => 10u32,
            },
    {
        match *self {
            InsuranceError::Unauthorized => 1,
            InsuranceError::InvalidAmount => 2,
            InsuranceError::ExceedsCoverageLimit => 3,
            InsuranceError::ClaimNotFound => 4,
            InsuranceError::ClaimNotPending => 5,
            InsuranceError::InsufficientPoolFunds => 6,
            InsuranceError::InvalidCoverageLimit => 7,
            InsuranceError::NotInitialized => 8,
            InsuranceError::AlreadyInitialized => 9,
            InsuranceError::Overflow => 10,
        }
    }
}

/// State of a claim.
#[derive(Clone, Copy, Debug, PartialEq, Eq, Structural)]
pub enum ClaimStatus {
    Pending,
    Approved,
    Rejected,
}

/// An insurance claim.
#[derive(Debug)]
pub struct InsuranceClaim {
    pub id: u64,
    pub claimant: Address,
    pub asset: Address,
    pub amount: i128,
    pub status: ClaimStatus,
    pub submitted_at: u64,
    pub resolved_at: u64,
}

/// The abstract value of a claim.
pub struct ClaimRecord {
    pub id: u64,
    pub claimant: Seq<u8>,
    pub asset: Seq<u8>,
    pub amount: i128,
    pub status: ClaimStatus,
    pub submitted_at: u64,
    pub resolved_at: u64,
}

impl View for InsuranceClaim {
    type V = ClaimRecord;

    open spec fn view(&self) -> ClaimRecord {
        ClaimRecord {
            id: self.id,
            claimant: self.claimant@,
            asset: self.asset@,
            amount: self.amount,
            status: self.status,
            submitted_at: self.submitted_at,
            resolved_at: self.resolved_at,
        }
    }
}

impl InsuranceClaim {
    /// A copy of the claim.
    pub fn duplicate(&self) -> (r: InsuranceClaim)
        ensures
            r@ == self@,
    {
        InsuranceClaim {
            id: self.id,
            claimant: self.claimant.duplicate(),
            asset: self.asset.duplicate(),
            amount: self.amount,
            status: self.status,
            submitted_at: self.submitted_at,
            resolved_at: self.resolved_at,
        }
    }
}

/// Pool health figures.
#[derive(Clone, Copy, Debug, PartialEq, Eq, Structural)]
pub struct InsuranceAnalytics {
    pub pool_balance: i128,
    pub emergency_fund: i128,
    pub total_claims_paid: i128,
    pub total_premiums_collected: i128,
    pub total_fee_contributions: i128,
    pub available_balance: i128,
}

/// Published when fees are contributed to the pool.
#[derive(Clone, Copy, Debug, PartialEq, Eq, Structural)]
pub struct InsuranceFundedEvent {
    pub amount: i128,
    pub new_pool_balance: i128,
    pub timestamp: u64,
}

/// Published when a claim is submitted.
#[derive(Debug)]
pub struct InsuranceClaimSubmittedEvent {
    pub claim_id: u64,
    pub claimant: Address,
    pub asset: Address,
    pub amount: i128,
    pub timestamp: u64,
}

/// Published when a claim is approved or rejected.
#[derive(Clone, Copy, Debug, PartialEq, Eq, Structural)]
pub struct InsuranceClaimResolvedEvent {
    pub claim_id: u64,
    pub approved: bool,
    pub amount: i128,
    pub timestamp: u64,
}

/// Published when an asset's coverage limit is set.
#[derive(Debug)]
pub struct InsuranceCoverageLimitSetEvent {
    pub asset: Address,
    pub limit_bps: i128,
    pub timestamp: u64,
}

/// Published when a premium is collected.
#[derive(Debug)]
pub struct InsurancePremiumCollectedEvent {
    pub payer: Address,
    pub asset: Address,
    pub premium: i128,
    pub timestamp: u64,
}

/// The abstract state of the pool.  The claim with ID `i + 1` is `claims[i]`.
#[verifier::ext_equal]
pub struct PoolView {
    pub admin: Option<Seq<u8>>,
    pub pool_balance: int,
    pub emergency_fund: int,
    pub coverage_limits: Map<Seq<u8>, i128>,
    pub premium_rates: Map<Seq<u8>, i128>,
    pub total_claims_paid: int,
    pub total_premiums_collected: int,
    pub total_fee_contributions: int,
    pub claims: Seq<ClaimRecord>,
}

/// The state of the insurance pool.
pub struct InsurancePool {
    admin: Option<Address>,
    pool_balance: i128,
    emergency_fund: i128,
    coverage_limits: AddressMap<i128>,
    premium_rates: AddressMap<i128>,
    total_claims_paid: i128,
    total_premiums_collected: i128,
    total_fee_contributions: i128,
    claims: Vec<InsuranceClaim>,
}

/// The stored form of a pool: its fields, with the per-asset tables as lists
/// of entries.
pub struct PoolParts {
    pub admin: Option<Address>,
    pub pool_balance: i128,
    pub emergency_fund: i128,
    pub coverage_limits: Vec<(Address, i128)>,
    pub premium_rates: Vec<(Address, i128)>,
    pub total_claims_paid: i128,
    pub total_premiums_collected: i128,
    pub total_fee_contributions: i128,
    pub claims: Vec<InsuranceClaim>,
}

// ─── Specification ──────────────────────────────────────────────────────────

/// The pool's accounting: the pool balance is the fee contributions plus the
/// premiums collected minus the claims paid, as long as none of these
/// running totals has reached `i128::MAX` (where they saturate).
pub open spec fn pool_accounting(s: PoolView) -> bool {
    s.total_fee_contributions < i128::MAX && s.total_premiums_collected < i128::MAX && s.total_claims_paid
        < i128::MAX ==> s.pool_balance == s.total_fee_contributions + s.total_premiums_collected
        - s.total_claims_paid
}

/// The invariant that every reachable pool state keeps: the emergency fund is
/// part of the pool, the running totals are non-negative and account for the
/// pool balance, limits and rates lie in their ranges, and claims are
/// numbered from 1 with positive amounts.
pub open spec fn valid_pool(s: PoolView) -> bool {
    &&& 0 <= s.emergency_fund <= s.pool_balance <= i128::MAX
    &&& pool_accounting(s)
    &&& 0 <= s.total_claims_paid <= i128::MAX
    &&& 0 <= s.total_premiums_collected <= i128::MAX
    &&& 0 <= s.total_fee_contributions <= i128::MAX
    &&& forall|a: Seq<u8>| #[trigger] s.coverage_limits.contains_key(a)
        ==> 0 <= s.coverage_limits[a] <= MAX_COVERAGE_LIMIT_BPS
    &&& forall|a: Seq<u8>| #[trigger] s.premium_rates.contains_key(a)
        ==> MIN_PREMIUM_BPS <= s.premium_rates[a] <= MAX_PREMIUM_BPS
    &&& forall|i: int| 0 <= i < s.claims.len() ==> (#[trigger] s.claims[i]).id == i + 1 && s.claims[i].amount > 0
}

/// The pool of a fresh deployment: no admin, empty balances, no claims.
pub open spec fn empty_pool() -> PoolView {
    PoolView {
        admin: None,
        pool_balance: 0,
        emergency_fund: 0,
        coverage_limits: Map::empty(),
        premium_rates: Map::empty(),
        total_claims_paid: 0,
        total_premiums_collected: 0,
        total_fee_contributions: 0,
        claims: Seq::empty(),
    }
}

/// `x` basis points of `amount`, saturating the product and rounding down.
pub open spec fn apply_bps(amount: int, bps: int) -> int {
    sat(amount * bps) / (BPS_SCALE as int)
}

/// The coverage limit of an asset: the one set for it, else the maximum.
pub open spec fn coverage_limit_of(s: PoolView, asset: Seq<u8>) -> int {
    if s.coverage_limits.contains_key(asset) {
        s.coverage_limits[asset] as int
    } else {
        MAX_COVERAGE_LIMIT_BPS as int
    }
}

/// The premium rate last charged for an asset, else the base rate.
pub open spec fn premium_rate_of(s: PoolView, asset: Seq<u8>) -> int {
    if s.premium_rates.contains_key(asset) {
        s.premium_rates[asset] as int
    } else {
        BASE_PREMIUM_BPS as int
    }
}

/// The dynamic premium rate:
/// `BASE + utilisation_bps * (MAX - BASE) / BPS_SCALE`, clamped to
/// `[MIN, MAX]`, where `utilisation_bps = claims_paid * BPS_SCALE / pool`;
/// the maximum rate when the pool is empty.
pub open spec fn dynamic_premium(s: PoolView) -> int {
    if s.pool_balance == 0 {
        MAX_PREMIUM_BPS as int
    } else {
        let utilisation = sat(s.total_claims_paid * BPS_SCALE) / s.pool_balance;
        let extra = apply_bps(utilisation, MAX_PREMIUM_BPS - BASE_PREMIUM_BPS);
        clamp(sat(BASE_PREMIUM_BPS + extra), MIN_PREMIUM_BPS as int, MAX_PREMIUM_BPS as int)
    }
}

/// The largest claim an asset may be paid: its coverage limit of the pool.
pub open spec fn max_payout(s: PoolView, asset: Seq<u8>) -> int {
    apply_bps(s.pool_balance, coverage_limit_of(s, asset))
}

/// The part of the pool that is not the emergency fund.
pub open spec fn available_balance(s: PoolView) -> int {
    sat(s.pool_balance - s.emergency_fund)
}

/// The admin check: the pool is initialised and `caller` is its admin.
pub open spec fn admin_error(s: PoolView, caller: Seq<u8>) -> Option<InsuranceError> {
    match s.admin {
        None => Some(InsuranceError::NotInitialized),
        Some(a) => if a == caller {
            None
        } else {
            Some(InsuranceError::Unauthorized)
        },
    }
}

// ─── Authorization ──────────────────────────────────────────────────────────
//
// Each operation that needs a signature asks for it at a fixed point: after
// the checks listed below and before every later one.  An operation that
// refuses before that point asks for none.  The functions below give the
// address whose authorization is owed, or `None` when none is asked for.

/// `initialize` asks the new admin to authorize once the pool is known to be
/// uninitialised.
pub open spec fn initialize_auth(s: PoolView, admin: Seq<u8>) -> Option<Seq<u8>> {
    if s.admin is Some {
        None
    } else {
        Some(admin)
    }
}

/// `collect_premium` (the payer) and `submit_claim` (the claimant) ask the
/// user to authorize once the pool is initialised and the amount is
/// positive, before the overflow and coverage checks.
pub open spec fn user_auth(s: PoolView, user: Seq<u8>, amount: int) -> Option<Seq<u8>> {
    if s.admin is Some && amount > 0 {
        Some(user)
    } else {
        None
    }
}

/// `evaluate_claim` and `set_coverage_limit` ask the caller to authorize
/// once the caller is known to be the admin, before any other check.
pub open spec fn admin_auth(s: PoolView, caller: Seq<u8>) -> Option<Seq<u8>> {
    if admin_error(s, caller) is None {
        Some(caller)
    } else {
        None
    }
}

pub open spec fn initialize_error(s: PoolView) -> Option<InsuranceError> {
    if s.admin is Some {
        Some(InsuranceError::AlreadyInitialized)
    } else {
        None
    }
}

pub open spec fn initialize_next(s: PoolView, admin: Seq<u8>) -> PoolView {
    PoolView { admin: Some(admin), ..s }
}

pub open spec fn fund_pool_error(s: PoolView, amount: int) -> Option<InsuranceError> {
    if s.admin is None {
        Some(InsuranceError::NotInitialized)
    } else if amount <= 0 {
        Some(InsuranceError::InvalidAmount)
    } else if !in_i128(s.pool_balance + amount) {
        Some(InsuranceError::Overflow)
    } else if !in_i128(s.emergency_fund + apply_bps(amount, EMERGENCY_FUND_BPS as int)) {
        Some(InsuranceError::Overflow)
    } else {
        None
    }
}

pub open spec fn fund_pool_next(s: PoolView, amount: int) -> PoolView {
    PoolView {
        pool_balance: s.pool_balance + amount,
        emergency_fund: s.emergency_fund + apply_bps(amount, EMERGENCY_FUND_BPS as int),
        total_fee_contributions: sat(s.total_fee_contributions + amount),
        ..s
    }
}

pub open spec fn collect_premium_error(s: PoolView, coverage_amount: int) -> Option<InsuranceError> {
    if s.admin is None {
        Some(InsuranceError::NotInitialized)
    } else if coverage_amount <= 0 {
        Some(InsuranceError::InvalidAmount)
    } else if !in_i128(s.pool_balance + apply_bps(coverage_amount, dynamic_premium(s))) {
        Some(InsuranceError::Overflow)
    } else {
        None
    }
}

/// The premium charged for `coverage_amount` at the current dynamic rate.
pub open spec fn premium_for(s: PoolView, coverage_amount: int) -> int {
    apply_bps(coverage_amount, dynamic_premium(s))
}

pub open spec fn collect_premium_next(s: PoolView, asset: Seq<u8>, coverage_amount: int) -> PoolView {
    let premium = premium_for(s, coverage_amount);
    PoolView {
        premium_rates: s.premium_rates.insert(asset, dynamic_premium(s) as i128),
        pool_balance: s.pool_balance + premium,
        total_premiums_collected: sat(s.total_premiums_collected + premium),
        ..s
    }
}

pub open spec fn submit_claim_error(s: PoolView, asset: Seq<u8>, amount: int) -> Option<InsuranceError> {
    if s.admin is None {
        Some(InsuranceError::NotInitialized)
    } else if amount <= 0 {
        Some(InsuranceError::InvalidAmount)
    } else if amount > max_payout(s, asset) {
        Some(InsuranceError::ExceedsCoverageLimit)
    } else {
        None
    }
}

/// The ID the next submitted claim receives.
pub open spec fn next_claim_id(s: PoolView) -> int {
    s.claims.len() + 1int
}

pub open spec fn submit_claim_next(
    s: PoolView,
    claimant: Seq<u8>,
    asset: Seq<u8>,
    amount: int,
    now: u64,
) -> PoolView {
    PoolView {
        claims: s.claims.push(
            ClaimRecord {
                id: next_claim_id(s) as u64,
                claimant,
                asset,
                amount: amount as i128,
                status: ClaimStatus::Pending,
                submitted_at: now,
                resolved_at: 0,
            },
        ),
        ..s
    }
}

pub open spec fn claim_exists(s: PoolView, claim_id: int) -> bool {
    1 <= claim_id <= s.claims.len()
}

pub open spec fn claim_of(s: PoolView, claim_id: int) -> ClaimRecord {
    s.claims[claim_id - 1]
}

pub open spec fn evaluate_claim_error(
    s: PoolView,
    caller: Seq<u8>,
    claim_id: int,
    approve: bool,
) -> Option<InsuranceError> {
    if admin_error(s, caller) is Some {
        admin_error(s, caller)
    } else if !claim_exists(s, claim_id) {
        Some(InsuranceError::ClaimNotFound)
    } else if claim_of(s, claim_id).status != ClaimStatus::Pending {
        Some(InsuranceError::ClaimNotPending)
    } else if approve && claim_of(s, claim_id).amount > available_balance(s) {
        Some(InsuranceError::InsufficientPoolFunds)
    } else if approve && !in_i128(s.pool_balance - claim_of(s, claim_id).amount) {
        Some(InsuranceError::Overflow)
    } else {
        None
    }
}

pub open spec fn evaluate_claim_next(s: PoolView, claim_id: int, approve: bool, now: u64) -> PoolView {
    let c = claim_of(s, claim_id);
    let resolved = ClaimRecord {
        status: if approve {
            ClaimStatus::Approved
        } else {
            ClaimStatus::Rejected
        },
        resolved_at: now,
        ..c
    };
    if approve {
        PoolView {
            pool_balance: s.pool_balance - c.amount,
            total_claims_paid: sat(s.total_claims_paid + c.amount),
            claims: s.claims.update(claim_id - 1, resolved),
            ..s
        }
    } else {
        PoolView { claims: s.claims.update(claim_id - 1, resolved), ..s }
    }
}

pub open spec fn set_coverage_limit_error(s: PoolView, caller: Seq<u8>, limit_bps: int) -> Option<
    InsuranceError,
> {
    if admin_error(s, caller) is Some {
        admin_error(s, caller)
    } else if limit_bps < 0 || limit_bps > MAX_COVERAGE_LIMIT_BPS {
        Some(InsuranceError::InvalidCoverageLimit)
    } else {
        None
    }
}

pub open spec fn set_coverage_limit_next(s: PoolView, asset: Seq<u8>, limit_bps: i128) -> PoolView {
    PoolView { coverage_limits: s.coverage_limits.insert(asset, limit_bps), ..s }
}

/// The pool state that stored parts describe.
pub open spec fn parts_view(p: PoolParts) -> PoolView {
    PoolView {
        admin: match p.admin {
            Some(a) => Some(a@),
            None => None,
        },
        pool_balance: p.pool_balance as int,
        emergency_fund: p.emergency_fund as int,
        coverage_limits: entries_map(p.coverage_limits@),
        premium_rates: entries_map(p.premium_rates@),
        total_claims_paid: p.total_claims_paid as int,
        total_premiums_collected: p.total_premiums_collected as int,
        total_fee_contributions: p.total_fee_contributions as int,
        claims: p.claims@.map_values(|c: InsuranceClaim| c@),
    }
}

/// Stored parts describe a pool: table keys are distinct and the pool
/// invariant holds.
pub open spec fn parts_valid(p: PoolParts) -> bool {
    &&& distinct_keys(p.coverage_limits@)
    &&& distinct_keys(p.premium_rates@)
    &&& valid_pool(parts_view(p))
}

// ─── Implementation ─────────────────────────────────────────────────────────

/// Whether every entry's value lies in `[lo, hi]`.
fn values_in_range(entries: &Vec<(Address, i128)>, lo: i128, hi: i128) -> (r: bool)
    ensures
        r == forall|i: int| 0 <= i < entries@.len() ==> lo <= (#[trigger] entries@[i]).1 <= hi,
{
    let mut i: usize = 0;
    while i < entries.len()
        invariant
            i <= entries@.len(),
            forall|j: int| 0 <= j < i ==> lo <= (#[trigger] entries@[j]).1 <= hi,
        decreases entries@.len() - i,
    {
        if entries[i].1 < lo || entries[i].1 > hi {
            return false;
        }
        i = i + 1;
    }
    true
}

/// Whether claims are numbered from 1 in order and have positive amounts.
fn claims_well_numbered(claims: &Vec<InsuranceClaim>) -> (r: bool)
    ensures
        r == forall|i: int| 0 <= i < claims@.len() ==> (#[trigger] claims@[i]).id == i + 1 && claims@[i].amount > 0,
{
    let mut i: usize = 0;
    while i < claims.len()
        invariant
            i <= claims@.len(),
            forall|j: int| 0 <= j < i ==> (#[trigger] claims@[j]).id == j + 1 && claims@[j].amount > 0,
        decreases claims@.len() - i,
    {
        if claims[i].id != (i as u64) + 1 || claims[i].amount <= 0 {
            return false;
        }
        i = i + 1;
    }
    true
}

impl View for InsurancePool {
    type V = PoolView;

    closed spec fn view(&self) -> PoolView {
        PoolView {
            admin: match self.admin {
                Some(a) => Some(a@),
                None => None,
            },
            pool_balance: self.pool_balance as int,
            emergency_fund: self.emergency_fund as int,
            coverage_limits: self.coverage_limits@,
            premium_rates: self.premium_rates@,
            total_claims_paid: self.total_claims_paid as int,
            total_premiums_collected: self.total_premiums_collected as int,
            total_fee_contributions: self.total_fee_contributions as int,
            claims: self.claims@.map_values(|c: InsuranceClaim| c@),
        }
    }
}

/// `bps` basis points of a non-negative amount.
fn apply_bps_exec(amount: i128, bps: i128) -> (r: i128)
    requires
        amount >= 0,
        bps >= 0,
    ensures
        r == apply_bps(amount as int, bps as int),
        0 <= r,
{
    assert(amount * bps >= 0) by (nonlinear_arith)
        requires
            amount >= 0,
            bps >= 0,
    ;
    let product = saturating_mul(amount, bps);
    div_toward_zero(product, BPS_SCALE)
}

impl InsurancePool {
    /// The table and claim-list invariants, and the pool invariant on the view.
    pub closed spec fn wf(&self) -> bool {
        &&& self.coverage_limits.wf()
        &&& self.premium_rates.wf()
        &&& valid_pool(self@)
    }

    /// The pool of a fresh deployment.
    pub fn new() -> (p: InsurancePool)
        ensures
            p.wf(),
            p@ == empty_pool(),
    {
        let p = InsurancePool {
            admin: None,
            pool_balance: 0,
            emergency_fund: 0,
            coverage_limits: AddressMap::new(),
            premium_rates: AddressMap::new(),
            total_claims_paid: 0,
            total_premiums_collected: 0,
            total_fee_contributions: 0,
            claims: Vec::new(),
        };
        assert(p@ =~= empty_pool());
        p
    }

    /// A well-formed pool's view satisfies the pool invariant.
    pub proof fn lemma_valid(&self)
        requires
            self.wf(),
        ensures
            valid_pool(self@),
    {
    }

    proof fn lemma_view_facts(&self)
        requires
            self.wf(),
        ensures
            valid_pool(self@),
            self@.claims.len() == self.claims@.len(),
            forall|i: int| 0 <= i < self.claims@.len() ==> #[trigger] self@.claims[i] == self.claims@[i]@,
    {
    }

    /// Checks that the pool is initialised and `caller` is its admin.
    fn require_admin(&self, caller: &Address) -> (r: Result<(), InsuranceError>)
        ensures
            match admin_error(self@, caller@) {
                Some(e) => r == Err::<(), InsuranceError>(e),
                None => r is Ok,
            },
    {
        match &self.admin {
            None => Err(InsuranceError::NotInitialized),
            Some(a) => if a.same_as(caller) {
                Ok(())
            } else {
                Err(InsuranceError::Unauthorized)
            },
        }
    }

    /// The address whose authorization `initialize` asks for.
    pub fn initialize_signer(&self, admin: &Address) -> (r: Option<Address>)
        ensures
            opt_view(r) == initialize_auth(self@, admin@),
    {
        if self.admin.is_some() {
            None
        } else {
            Some(admin.duplicate())
        }
    }

    /// The address whose authorization `collect_premium` asks for.
    pub fn collect_premium_signer(&self, payer: &Address, coverage_amount: i128) -> (r: Option<Address>)
        ensures
            opt_view(r) == user_auth(self@, payer@, coverage_amount as int),
    {
        self.user_signer(payer, coverage_amount)
    }

    /// The address whose authorization `submit_claim` asks for.
    pub fn submit_claim_signer(&self, claimant: &Address, amount: i128) -> (r: Option<Address>)
        ensures
            opt_view(r) == user_auth(self@, claimant@, amount as int),
    {
        self.user_signer(claimant, amount)
    }

    /// The address whose authorization `evaluate_claim` asks for.
    pub fn evaluate_claim_signer(&self, admin: &Address) -> (r: Option<Address>)
        ensures
            opt_view(r) == admin_auth(self@, admin@),
    {
        self.admin_signer(admin)
    }

    /// The address whose authorization `set_coverage_limit` asks for.
    pub fn set_coverage_limit_signer(&self, admin: &Address) -> (r: Option<Address>)
        ensures
            opt_view(r) == admin_auth(self@, admin@),
    {
        self.admin_signer(admin)
    }

    fn user_signer(&self, user: &Address, amount: i128) -> (r: Option<Address>)
        ensures
            opt_view(r) == user_auth(self@, user@, amount as int),
    {
        if self.admin.is_some() && amount > 0 {
            Some(user.duplicate())
        } else {
            None
        }
    }

    fn admin_signer(&self, caller: &Address) -> (r: Option<Address>)
        ensures
            opt_view(r) == admin_auth(self@, caller@),
    {
        match self.require_admin(caller) {
            Ok(()) => Some(caller.duplicate()),
            Err(_) => None,
        }
    }

    fn get_coverage_limit_bps(&self, asset: &Address) -> (r: i128)
        requires
            self.wf(),
        ensures
            r == coverage_limit_of(self@, asset@),
    {
        self.coverage_limits.get_or(asset, MAX_COVERAGE_LIMIT_BPS)
    }

    fn get_premium_rate_bps(&self, asset: &Address) -> (r: i128)
        requires
            self.wf(),
        ensures
            r == premium_rate_of(self@, asset@),
    {
        self.premium_rates.get_or(asset, BASE_PREMIUM_BPS)
    }

    /// The dynamic premium rate for the pool's current utilisation.
    fn compute_dynamic_premium(&self) -> (r: i128)
        requires
            self.wf(),
        ensures
            r == dynamic_premium(self@),
            MIN_PREMIUM_BPS <= r <= MAX_PREMIUM_BPS,
    {
        let pool = self.pool_balance;
        if pool == 0 {
            return MAX_PREMIUM_BPS;
        }
        let claims_paid = self.total_claims_paid;
        assert(claims_paid * BPS_SCALE >= 0) by (nonlinear_arith)
            requires
                claims_paid >= 0,
        ;
        let scaled = saturating_mul(claims_paid, BPS_SCALE);
        let utilisation_bps = div_toward_zero(scaled, pool);
        assert(utilisation_bps >= 0) by (nonlinear_arith)
            requires
                scaled >= 0,
                pool > 0,
                utilisation_bps == (scaled as int) / (pool as int),
        ;
        let extra = apply_bps_exec(utilisation_bps, MAX_PREMIUM_BPS - BASE_PREMIUM_BPS);
        let raw = saturating_add(BASE_PREMIUM_BPS, extra);
        clamp_i128(raw, MIN_PREMIUM_BPS, MAX_PREMIUM_BPS)
    }

    /// Initialize the insurance pool with its admin.  Can be done once.
    pub fn initialize(&mut self, admin: &Address) -> (r: Result<(), InsuranceError>)
        requires
            old(self).wf(),
        ensures
            final(self).wf(),
            match initialize_error(old(self)@) {
                Some(e) => r == Err::<(), InsuranceError>(e) && final(self)@ == old(self)@,
                None => r is Ok && final(self)@ == initialize_next(old(self)@, admin@),
            },
    {
        if self.admin.is_some() {
            return Err(InsuranceError::AlreadyInitialized);
        }
        self.admin = Some(admin.duplicate());
        assert(self@ =~= initialize_next(old(self)@, admin@));
        Ok(())
    }

    /// Contribute protocol fees to the pool; a fifth of the amount is set
    /// aside as emergency fund.  Returns the event to publish.
    pub fn fund_pool(&mut self, amount: i128, now: u64) -> (r: Result<InsuranceFundedEvent, InsuranceError>)
        requires
            old(self).wf(),
        ensures
            final(self).wf(),
            match fund_pool_error(old(self)@, amount as int) {
                Some(e) => r == Err::<InsuranceFundedEvent, InsuranceError>(e) && final(self)@ == old(self)@,
                None => r matches Ok(ev) && final(self)@ == fund_pool_next(old(self)@, amount as int)
                    && ev == InsuranceFundedEvent {
                    amount,
                    new_pool_balance: final(self)@.pool_balance as i128,
                    timestamp: now,
                },
            },
    {
        if self.admin.is_none() {
            return Err(InsuranceError::NotInitialized);
        }
        if amount <= 0 {
            return Err(InsuranceError::InvalidAmount);
        }
        let new_balance = match self.pool_balance.checked_add(amount) {
            Some(v) => v,
            None => return Err(InsuranceError::Overflow),
        };
        let emergency_share = apply_bps_exec(amount, EMERGENCY_FUND_BPS);
        let new_emergency = match self.emergency_fund.checked_add(emergency_share) {
            Some(v) => v,
            None => return Err(InsuranceError::Overflow),
        };
        assert(emergency_share <= amount) by (nonlinear_arith)
            requires
                amount > 0,
                emergency_share == sat(amount * 2000) / 10000,
                sat(amount * 2000) <= amount * 2000,
        ;
        self.pool_balance = new_balance;
        self.emergency_fund = new_emergency;
        self.total_fee_contributions = saturating_add(self.total_fee_contributions, amount);
        assert(self@ =~= fund_pool_next(old(self)@, amount as int));
        Ok(InsuranceFundedEvent { amount, new_pool_balance: new_balance, timestamp: now })
    }

    /// Collect a coverage premium from `payer` for `asset`, priced at the
    /// dynamic rate, which becomes the asset's premium rate.  Returns the
    /// premium charged and the event to publish.
    pub fn collect_premium(&mut self, payer: &Address, asset: &Address, coverage_amount: i128, now: u64) -> (r:
        Result<(i128, InsurancePremiumCollectedEvent), InsuranceError>)
        requires
            old(self).wf(),
        ensures
            final(self).wf(),
            match collect_premium_error(old(self)@, coverage_amount as int) {
                Some(e) => r matches Err(e2) && e2 == e && final(self)@ == old(self)@,
                None => r matches Ok((premium, ev)) && premium == premium_for(old(self)@, coverage_amount as int)
                    && final(self)@ == collect_premium_next(old(self)@, asset@, coverage_amount as int)
                    && ev.payer@ == payer@ && ev.asset@ == asset@ && ev.premium == premium && ev.timestamp == now,
            },
    {
        if self.admin.is_none() {
            return Err(InsuranceError::NotInitialized);
        }
        if coverage_amount <= 0 {
            return Err(InsuranceError::InvalidAmount);
        }
        let dynamic_rate = self.compute_dynamic_premium();
        let premium = apply_bps_exec(coverage_amount, dynamic_rate);
        let new_balance = match self.pool_balance.checked_add(premium) {
            Some(v) => v,
            None => return Err(InsuranceError::Overflow),
        };
        self.premium_rates.set(asset, dynamic_rate);
        self.pool_balance = new_balance;
        self.total_premiums_collected = saturating_add(self.total_premiums_collected, premium);
        assert(self@ =~= collect_premium_next(old(self)@, asset@, coverage_amount as int));
        let ev = InsurancePremiumCollectedEvent {
            payer: payer.duplicate(),
            asset: asset.duplicate(),
            premium,
            timestamp: now,
        };
        Ok((premium, ev))
    }

    /// Submit a claim of `amount` on `asset`; it may be at most the asset's
    /// coverage limit of the pool.  Returns the new claim's ID and the event
    /// to publish.
    pub fn submit_claim(&mut self, claimant: &Address, asset: &Address, amount: i128, now: u64) -> (r: Result<
        (u64, InsuranceClaimSubmittedEvent),
        InsuranceError,
    >)
        requires
            old(self).wf(),
            submit_claim_error(old(self)@, asset@, amount as int) is None ==> next_claim_id(old(self)@) < u64::MAX,
        ensures
            final(self).wf(),
            match submit_claim_error(old(self)@, asset@, amount as int) {
                Some(e) => r matches Err(e2) && e2 == e && final(self)@ == old(self)@,
                None => r matches Ok((id, ev)) && id == next_claim_id(old(self)@)
                    && final(self)@ == submit_claim_next(old(self)@, claimant@, asset@, amount as int, now)
                    && ev.claim_id == id && ev.claimant@ == claimant@ && ev.asset@ == asset@ && ev.amount == amount
                    && ev.timestamp == now,
            },
    {
        if self.admin.is_none() {
            return Err(InsuranceError::NotInitialized);
        }
        if amount <= 0 {
            return Err(InsuranceError::InvalidAmount);
        }
        let limit_bps = self.get_coverage_limit_bps(asset);
        let max_payout = apply_bps_exec(self.pool_balance, limit_bps);
        if amount > max_payout {
            return Err(InsuranceError::ExceedsCoverageLimit);
        }
        proof {
            self.lemma_view_facts();
        }
        let id: u64 = (self.claims.len() as u64) + 1;
        let claim = InsuranceClaim {
            id,
            claimant: claimant.duplicate(),
            asset: asset.duplicate(),
            amount,
            status: ClaimStatus::Pending,
            submitted_at: now,
            resolved_at: 0,
        };
        self.claims.push(claim);
        proof {
            assert(self.claims@.map_values(|c: InsuranceClaim| c@) =~= old(self)@.claims.push(self.claims@[self.claims@.len() - 1]@));
        }
        assert(self@ =~= submit_claim_next(old(self)@, claimant@, asset@, amount as int, now));
        let ev = InsuranceClaimSubmittedEvent {
            claim_id: id,
            claimant: claimant.duplicate(),
            asset: asset.duplicate(),
            amount,
            timestamp: now,
        };
        Ok((id, ev))
    }

    /// Approve or reject a pending claim (admin only).  An approved claim is
    /// paid from the part of the pool that is not the emergency fund.
    /// Returns the event to publish.
    pub fn evaluate_claim(&mut self, admin: &Address, claim_id: u64, approve: bool, now: u64) -> (r: Result<
        InsuranceClaimResolvedEvent,
        InsuranceError,
    >)
        requires
            old(self).wf(),
        ensures
            final(self).wf(),
            match evaluate_claim_error(old(self)@, admin@, claim_id as int, approve) {
                Some(e) => r == Err::<InsuranceClaimResolvedEvent, InsuranceError>(e) && final(self)@ == old(self)@,
                None => r matches Ok(ev) && final(self)@ == evaluate_claim_next(old(self)@, claim_id as int, approve, now)
                    && ev == InsuranceClaimResolvedEvent {
                    claim_id,
                    approved: approve,
                    amount: claim_of(old(self)@, claim_id as int).amount,
                    timestamp: now,
                },
            },
    {
        match self.require_admin(admin) {
            Err(e) => return Err(e),
            Ok(()) => {},
        }
        proof {
            self.lemma_view_facts();
        }
        if claim_id == 0 || claim_id > self.claims.len() as u64 {
            return Err(InsuranceError::ClaimNotFound);
        }
        let idx = (claim_id - 1) as usize;
        if self.claims[idx].status != ClaimStatus::Pending {
            return Err(InsuranceError::ClaimNotPending);
        }
        let amount = self.claims[idx].amount;
        let mut claim = self.claims[idx].duplicate();
        if approve {
            let pool = self.pool_balance;
            let available = saturating_sub(pool, self.emergency_fund);
            if amount > available {
                return Err(InsuranceError::InsufficientPoolFunds);
            }
            let new_balance = match pool.checked_sub(amount) {
                Some(v) => v,
                None => return Err(InsuranceError::Overflow),
            };
            self.pool_balance = new_balance;
            self.total_claims_paid = saturating_add(self.total_claims_paid, amount);
            claim.status = ClaimStatus::Approved;
        } else {
            claim.status = ClaimStatus::Rejected;
        }
        claim.resolved_at = now;
        self.claims.set(idx, claim);
        proof {
            let expected = evaluate_claim_next(old(self)@, claim_id as int, approve, now);
            assert(self.claims@.map_values(|c: InsuranceClaim| c@) =~= expected.claims);
            assert(self@ =~= expected);
        }
        Ok(InsuranceClaimResolvedEvent { claim_id, approved: approve, amount, timestamp: now })
    }

    /// Set the coverage limit of `asset`, in basis points of the pool
    /// (admin only; at most `MAX_COVERAGE_LIMIT_BPS`).  Returns the event to
    /// publish.
    pub fn set_coverage_limit(&mut self, admin: &Address, asset: &Address, limit_bps: i128, now: u64) -> (r: Result<
        InsuranceCoverageLimitSetEvent,
        InsuranceError,
    >)
        requires
            old(self).wf(),
        ensures
            final(self).wf(),
            match set_coverage_limit_error(old(self)@, admin@, limit_bps as int) {
                Some(e) => r matches Err(e2) && e2 == e && final(self)@ == old(self)@,
                None => r matches Ok(ev) && final(self)@ == set_coverage_limit_next(old(self)@, asset@, limit_bps)
                    && ev.asset@ == asset@ && ev.limit_bps == limit_bps && ev.timestamp == now,
            },
    {
        match self.require_admin(admin) {
            Err(e) => return Err(e),
            Ok(()) => {},
        }
        if limit_bps < 0 || limit_bps > MAX_COVERAGE_LIMIT_BPS {
            return Err(InsuranceError::InvalidCoverageLimit);
        }
        self.coverage_limits.set(asset, limit_bps);
        assert(self@ =~= set_coverage_limit_next(old(self)@, asset@, limit_bps));
        Ok(InsuranceCoverageLimitSetEvent { asset: asset.duplicate(), limit_bps, timestamp: now })
    }

    /// The claim with the given ID, if there is one.
    pub fn get_claim_by_id(&self, claim_id: u64) -> (r: Option<InsuranceClaim>)
        requires
            self.wf(),
        ensures
            match r {
                Some(c) => claim_exists(self@, claim_id as int) && c@ == claim_of(self@, claim_id as int),
                None => !claim_exists(self@, claim_id as int),
            },
    {
        proof {
            self.lemma_view_facts();
        }
        if claim_id == 0 || claim_id > self.claims.len() as u64 {
            return None;
        }
        Some(self.claims[(claim_id - 1) as usize].duplicate())
    }

    /// The premium rate of an asset, in basis points.
    pub fn get_premium_rate(&self, asset: &Address) -> (r: i128)
        requires
            self.wf(),
        ensures
            r == premium_rate_of(self@, asset@),
    {
        self.get_premium_rate_bps(asset)
    }

    /// The coverage limit of an asset, in basis points.
    pub fn get_coverage_limit(&self, asset: &Address) -> (r: i128)
        requires
            self.wf(),
        ensures
            r == coverage_limit_of(self@, asset@),
    {
        self.get_coverage_limit_bps(asset)
    }

    /// The number of claims submitted so far.
    pub fn claim_count(&self) -> (r: u64)
        requires
            self.wf(),
        ensures
            r == self@.claims.len(),
    {
        self.claims.len() as u64
    }

    /// The pool that stored parts describe, when they describe one.
    pub fn from_parts(parts: PoolParts) -> (r: Option<InsurancePool>)
        ensures
            match r {
                Some(p) => parts_valid(parts) && p.wf() && p@ == parts_view(parts),
                None => !parts_valid(parts),
            },
    {
        let ghost pv = parts_view(parts);
        let ghost cov = parts.coverage_limits@;
        let ghost rates = parts.premium_rates@;
        if !(0 <= parts.emergency_fund && parts.emergency_fund <= parts.pool_balance && parts.total_claims_paid >= 0
            && parts.total_premiums_collected >= 0 && parts.total_fee_contributions >= 0) {
            return None;
        }
        if parts.total_fee_contributions < i128::MAX && parts.total_premiums_collected < i128::MAX
            && parts.total_claims_paid < i128::MAX && parts.pool_balance - parts.total_fee_contributions
            != parts.total_premiums_collected - parts.total_claims_paid {
            return None;
        }
        if !values_in_range(&parts.coverage_limits, 0, MAX_COVERAGE_LIMIT_BPS) {
            proof {
                if distinct_keys(cov) {
                    let i = choose|i: int| 0 <= i < cov.len() && !(0 <= (#[trigger] cov[i]).1 <= MAX_COVERAGE_LIMIT_BPS);
                    lemma_entries_map_value(cov, i);
                    assert(pv.coverage_limits.contains_key(cov[i].0@));
                }
            }
            return None;
        }
        if !values_in_range(&parts.premium_rates, MIN_PREMIUM_BPS, MAX_PREMIUM_BPS) {
            proof {
                if distinct_keys(rates) {
                    let i = choose|i: int| 0 <= i < rates.len() && !(MIN_PREMIUM_BPS <= (#[trigger] rates[i]).1 <= MAX_PREMIUM_BPS);
                    lemma_entries_map_value(rates, i);
                    assert(pv.premium_rates.contains_key(rates[i].0@));
                }
            }
            return None;
        }
        if !claims_well_numbered(&parts.claims) {
            proof {
                let i = choose|i: int| 0 <= i < parts.claims@.len() && !((#[trigger] parts.claims@[i]).id == i + 1 && parts.claims@[i].amount > 0);
                assert(pv.claims[i] == parts.claims@[i]@);
            }
            return None;
        }
        let coverage_limits = match AddressMap::from_entries(parts.coverage_limits) {
            Some(m) => m,
            None => return None,
        };
        let premium_rates = match AddressMap::from_entries(parts.premium_rates) {
            Some(m) => m,
            None => return None,
        };
        let p = InsurancePool {
            admin: parts.admin,
            pool_balance: parts.pool_balance,
            emergency_fund: parts.emergency_fund,
            coverage_limits,
            premium_rates,
            total_claims_paid: parts.total_claims_paid,
            total_premiums_collected: parts.total_premiums_collected,
            total_fee_contributions: parts.total_fee_contributions,
            claims: parts.claims,
        };
        proof {
            assert forall|a: Seq<u8>| #[trigger] pv.coverage_limits.contains_key(a) implies 0 <= pv.coverage_limits[a]
                <= MAX_COVERAGE_LIMIT_BPS by {
                let c = choose|i: int| 0 <= i < cov.len() && #[trigger] cov[i].0@ == a;
                assert(0 <= cov[c].1 <= MAX_COVERAGE_LIMIT_BPS);
            }
            assert forall|a: Seq<u8>| #[trigger] pv.premium_rates.contains_key(a) implies MIN_PREMIUM_BPS
                <= pv.premium_rates[a] <= MAX_PREMIUM_BPS by {
                let c = choose|i: int| 0 <= i < rates.len() && #[trigger] rates[i].0@ == a;
                assert(MIN_PREMIUM_BPS <= rates[c].1 <= MAX_PREMIUM_BPS);
            }
            assert(p@ =~= pv);
        }
        Some(p)
    }

    /// The stored form of the pool.
    pub fn into_parts(self) -> (r: PoolParts)
        requires
            self.wf(),
        ensures
            parts_valid(r),
            parts_view(r) == self@,
    {
        let ghost v = self@;
        let r = PoolParts {
            admin: self.admin,
            pool_balance: self.pool_balance,
            emergency_fund: self.emergency_fund,
            coverage_limits: self.coverage_limits.into_entries(),
            premium_rates: self.premium_rates.into_entries(),
            total_claims_paid: self.total_claims_paid,
            total_premiums_collected: self.total_premiums_collected,
            total_fee_contributions: self.total_fee_contributions,
            claims: self.claims,
        };
        assert(parts_view(r) =~= v);
        r
    }

    /// Pool analytics.
    pub fn get_analytics(&self) -> (r: InsuranceAnalytics)
        requires
            self.wf(),
        ensures
            r.pool_balance == self@.pool_balance,
            r.emergency_fund == self@.emergency_fund,
            r.total_claims_paid == self@.total_claims_paid,
            r.total_premiums_collected == self@.total_premiums_collected,
            r.total_fee_contributions == self@.total_fee_contributions,
            r.available_balance == available_balance(self@),
    {
        InsuranceAnalytics {
            pool_balance: self.pool_balance,
            emergency_fund: self.emergency_fund,
            total_claims_paid: self.total_claims_paid,
            total_premiums_collected: self.total_premiums_collected,
            total_fee_contributions: self.total_fee_contributions,
            available_balance: saturating_sub(self.pool_balance, self.emergency_fund),
        }
    }
}

// ─── Laws ───────────────────────────────────────────────────────────────────

/// The fresh pool satisfies the pool invariant.
pub proof fn law_empty_pool_valid()
    ensures
        valid_pool(empty_pool()),
{
}

/// The pool can be initialised once: after a successful initialisation every
/// further one fails with `AlreadyInitialized`.
pub proof fn law_initialize_once(s: PoolView, admin: Seq<u8>)
    requires
        initialize_error(s) is None,
    ensures
        initialize_error(initialize_next(s, admin)) == Some(InsuranceError::AlreadyInitialized),
{
}

/// Every successful operation keeps the pool invariant; in particular the
/// emergency fund always stays within the pool balance.
pub proof fn law_operations_keep_pool_valid(
    s: PoolView,
    admin: Seq<u8>,
    asset: Seq<u8>,
    claimant: Seq<u8>,
    amount: int,
    claim_id: int,
    approve: bool,
    limit_bps: i128,
    now: u64,
)
    requires
        valid_pool(s),
    ensures
        initialize_error(s) is None ==> valid_pool(initialize_next(s, admin)),
        fund_pool_error(s, amount) is None ==> valid_pool(fund_pool_next(s, amount)),
        collect_premium_error(s, amount) is None ==> valid_pool(collect_premium_next(s, asset, amount)),
        submit_claim_error(s, asset, amount) is None && next_claim_id(s) < u64::MAX ==> valid_pool(
            submit_claim_next(s, claimant, asset, amount, now),
        ),
        evaluate_claim_error(s, admin, claim_id, approve) is None ==> valid_pool(
            evaluate_claim_next(s, claim_id, approve, now),
        ),
        set_coverage_limit_error(s, admin, limit_bps as int) is None ==> valid_pool(
            set_coverage_limit_next(s, asset, limit_bps),
        ),
{
    if fund_pool_error(s, amount) is None {
        assert(amount * 2000 >= 0) by (nonlinear_arith)
            requires
                amount > 0,
        ;
        assert(apply_bps(amount, EMERGENCY_FUND_BPS as int) <= amount) by (nonlinear_arith)
            requires
                amount > 0,
                apply_bps(amount, EMERGENCY_FUND_BPS as int) == sat(amount * 2000) / 10000,
                0 <= sat(amount * 2000) <= amount * 2000,
        ;
    }
    if collect_premium_error(s, amount) is None {
        law_premium_rate_bounded(s, asset);
        assert(amount * dynamic_premium(s) >= 0) by (nonlinear_arith)
            requires
                amount > 0,
                dynamic_premium(s) >= 10,
        ;
    }
    if evaluate_claim_error(s, admin, claim_id, approve) is None {
        let next = evaluate_claim_next(s, claim_id, approve, now);
        assert forall|i: int| 0 <= i < next.claims.len() implies (#[trigger] next.claims[i]).id == i + 1
            && next.claims[i].amount > 0 by {
            assert(s.claims[i].id == i + 1);
        }
    }
    if submit_claim_error(s, asset, amount) is None && next_claim_id(s) < u64::MAX {
        let next = submit_claim_next(s, claimant, asset, amount, now);
        assert forall|i: int| 0 <= i < next.claims.len() implies (#[trigger] next.claims[i]).id == i + 1
            && next.claims[i].amount > 0 by {
            if i < s.claims.len() {
                assert(s.claims[i].id == i + 1);
            }
        }
    }
}

/// The pool balance is always the fee contributions plus the premiums
/// collected minus the claims paid (while no running total has saturated),
/// and the available balance is the non-negative rest of the pool beyond the
/// emergency fund.
pub proof fn law_pool_accounting(s: PoolView)
    requires
        valid_pool(s),
    ensures
        s.total_fee_contributions < i128::MAX && s.total_premiums_collected < i128::MAX && s.total_claims_paid
            < i128::MAX ==> s.pool_balance == s.total_fee_contributions + s.total_premiums_collected
            - s.total_claims_paid,
        0 <= s.emergency_fund <= s.pool_balance,
        available_balance(s) == s.pool_balance - s.emergency_fund,
        available_balance(s) >= 0,
{
}

/// The premium rate of every asset, and the dynamic rate, lie between the
/// minimum and the maximum premium rate.
pub proof fn law_premium_rate_bounded(s: PoolView, asset: Seq<u8>)
    requires
        valid_pool(s),
    ensures
        MIN_PREMIUM_BPS <= premium_rate_of(s, asset) <= MAX_PREMIUM_BPS,
        MIN_PREMIUM_BPS <= dynamic_premium(s) <= MAX_PREMIUM_BPS,
{
}

/// Higher utilisation gives a higher premium: with the same non-negative pool
/// balance, more claims paid never lowers the dynamic premium rate (the other
/// fields of the two states play no part).
pub proof fn law_premium_grows_with_utilisation(s1: PoolView, s2: PoolView)
    requires
        0 <= s1.pool_balance,
        0 <= s1.total_claims_paid,
        s1.pool_balance == s2.pool_balance,
        s1.total_claims_paid <= s2.total_claims_paid,
    ensures
        dynamic_premium(s1) <= dynamic_premium(s2),
{
    if s1.pool_balance != 0 {
        let p = s1.pool_balance;
        let a1 = s1.total_claims_paid * BPS_SCALE;
        let a2 = s2.total_claims_paid * BPS_SCALE;
        assert(0 <= a1 <= a2) by (nonlinear_arith)
            requires
                0 <= s1.total_claims_paid <= s2.total_claims_paid,
                a1 == s1.total_claims_paid * 10000,
                a2 == s2.total_claims_paid * 10000,
        ;
        let u1 = sat(a1) / p;
        let u2 = sat(a2) / p;
        assert(0 <= u1 <= u2) by (nonlinear_arith)
            requires
                0 <= sat(a1) <= sat(a2),
                p > 0,
                u1 == sat(a1) / p,
                u2 == sat(a2) / p,
        ;
        let e1 = u1 * (MAX_PREMIUM_BPS - BASE_PREMIUM_BPS);
        let e2 = u2 * (MAX_PREMIUM_BPS - BASE_PREMIUM_BPS);
        assert(0 <= e1 <= e2) by (nonlinear_arith)
            requires
                0 <= u1 <= u2,
                e1 == u1 * 450,
                e2 == u2 * 450,
        ;
        let x1 = apply_bps(u1, MAX_PREMIUM_BPS - BASE_PREMIUM_BPS);
        let x2 = apply_bps(u2, MAX_PREMIUM_BPS - BASE_PREMIUM_BPS);
        assert(x1 <= x2) by (nonlinear_arith)
            requires
                0 <= sat(e1) <= sat(e2),
                x1 == sat(e1) / 10000,
                x2 == sat(e2) / 10000,
        ;
    }
}

/// A larger pool never raises the premium: with the same non-negative claims
/// paid, the dynamic premium rate of a larger pool is at most that of a
/// smaller non-negative one (the other fields play no part).
pub proof fn law_premium_falls_with_pool_size(s1: PoolView, s2: PoolView)
    requires
        0 <= s1.pool_balance,
        0 <= s1.total_claims_paid,
        s1.total_claims_paid == s2.total_claims_paid,
        s1.pool_balance <= s2.pool_balance,
    ensures
        dynamic_premium(s2) <= dynamic_premium(s1),
{
    if s1.pool_balance != 0 {
        let a = sat(s1.total_claims_paid * BPS_SCALE);
        assert(s1.total_claims_paid * 10000 >= 0) by (nonlinear_arith)
            requires
                s1.total_claims_paid >= 0,
        ;
        let p1 = s1.pool_balance;
        let p2 = s2.pool_balance;
        let u1 = a / p1;
        let u2 = a / p2;
        assert(0 <= u2 <= u1) by (nonlinear_arith)
            requires
                a >= 0,
                0 < p1 <= p2,
                u1 == a / p1,
                u2 == a / p2,
        ;
        let e1 = u1 * (MAX_PREMIUM_BPS - BASE_PREMIUM_BPS);
        let e2 = u2 * (MAX_PREMIUM_BPS - BASE_PREMIUM_BPS);
        assert(0 <= e2 <= e1) by (nonlinear_arith)
            requires
                0 <= u2 <= u1,
                e1 == u1 * 450,
                e2 == u2 * 450,
        ;
        let x1 = apply_bps(u1, MAX_PREMIUM_BPS - BASE_PREMIUM_BPS);
        let x2 = apply_bps(u2, MAX_PREMIUM_BPS - BASE_PREMIUM_BPS);
        assert(x2 <= x1) by (nonlinear_arith)
            requires
                0 <= sat(e2) <= sat(e1),
                x1 == sat(e1) / 10000,
                x2 == sat(e2) / 10000,
        ;
    }
}

/// Funding adds the whole amount to the pool and a fifth of it to the
/// emergency fund, and counts it as a fee contribution (the share is a fifth
/// as long as the amount times the share's basis points fits in `i128`).
pub proof fn law_fund_pool_effect(s: PoolView, amount: int)
    requires
        valid_pool(s),
        fund_pool_error(s, amount) is None,
        amount * EMERGENCY_FUND_BPS <= i128::MAX,
    ensures
        fund_pool_next(s, amount).pool_balance == s.pool_balance + amount,
        fund_pool_next(s, amount).emergency_fund == s.emergency_fund + amount * EMERGENCY_FUND_BPS
            / BPS_SCALE as int,
        fund_pool_next(s, amount).total_fee_contributions == s.total_fee_contributions + amount
            || fund_pool_next(s, amount).total_fee_contributions == i128::MAX,
        available_balance(fund_pool_next(s, amount)) == fund_pool_next(s, amount).pool_balance - fund_pool_next(
            s,
            amount,
        ).emergency_fund,
{
    assert(amount * 2000 >= 0) by (nonlinear_arith)
        requires
            amount > 0,
    ;
}

/// A collected premium is the coverage amount times the dynamic rate, in
/// basis points; it is added to the pool and to the premium total, and the
/// dynamic rate becomes the asset's premium rate.
pub proof fn law_collect_premium_effect(s: PoolView, asset: Seq<u8>, coverage_amount: int)
    requires
        valid_pool(s),
        collect_premium_error(s, coverage_amount) is None,
    ensures
        premium_for(s, coverage_amount) >= 0,
        collect_premium_next(s, asset, coverage_amount).pool_balance == s.pool_balance + premium_for(
            s,
            coverage_amount,
        ),
        premium_rate_of(collect_premium_next(s, asset, coverage_amount), asset) == dynamic_premium(s),
{
    law_premium_rate_bounded(s, asset);
    assert(coverage_amount * dynamic_premium(s) >= 0) by (nonlinear_arith)
        requires
            coverage_amount > 0,
            dynamic_premium(s) >= 10,
    ;
}

/// A successful submission takes the next claim ID, and the one after it
/// takes the following ID: claim IDs are consecutive, starting at 1.
pub proof fn law_claim_ids_consecutive(
    s: PoolView,
    claimant: Seq<u8>,
    asset: Seq<u8>,
    amount: int,
    now: u64,
)
    requires
        submit_claim_error(s, asset, amount) is None,
    ensures
        next_claim_id(submit_claim_next(s, claimant, asset, amount, now)) == next_claim_id(s) + 1,
        next_claim_id(empty_pool()) == 1,
        claim_exists(submit_claim_next(s, claimant, asset, amount, now), next_claim_id(s)),
{
}

/// A claim accepted for submission is positive and within the asset's
/// coverage limit of the pool.
pub proof fn law_submitted_claim_within_limit(s: PoolView, asset: Seq<u8>, amount: int)
    requires
        submit_claim_error(s, asset, amount) is None,
    ensures
        0 < amount <= max_payout(s, asset),
{
}

/// Approving a claim takes exactly its amount from the pool and adds it to the
/// claims paid, leaving the emergency fund and at least that much in the
/// pool; rejecting it moves no funds.
pub proof fn law_evaluate_claim_effect(s: PoolView, caller: Seq<u8>, claim_id: int, approve: bool, now: u64)
    requires
        valid_pool(s),
        evaluate_claim_error(s, caller, claim_id, approve) is None,
    ensures
        approve ==> evaluate_claim_next(s, claim_id, approve, now).pool_balance == s.pool_balance - claim_of(
            s,
            claim_id,
        ).amount,
        approve ==> evaluate_claim_next(s, claim_id, approve, now).total_claims_paid == s.total_claims_paid
            + claim_of(s, claim_id).amount || (evaluate_claim_next(s, claim_id, approve, now).total_claims_paid
            == i128::MAX && s.total_claims_paid + claim_of(s, claim_id).amount > i128::MAX),
        approve ==> evaluate_claim_next(s, claim_id, approve, now).pool_balance >= s.emergency_fund,
        !approve ==> evaluate_claim_next(s, claim_id, approve, now).pool_balance == s.pool_balance,
        !approve ==> evaluate_claim_next(s, claim_id, approve, now).total_claims_paid == s.total_claims_paid,
        evaluate_claim_next(s, claim_id, approve, now).emergency_fund == s.emergency_fund,
        claim_of(evaluate_claim_next(s, claim_id, approve, now), claim_id).status == if approve {
            ClaimStatus::Approved
        } else {
            ClaimStatus::Rejected
        },
{
}

/// A resolved claim cannot be evaluated again: once a claim has been approved
/// or rejected, every later evaluation of it by the admin fails with
/// `ClaimNotPending`.
pub proof fn law_resolved_claim_is_final(
    s: PoolView,
    caller: Seq<u8>,
    claim_id: int,
    approve: bool,
    now: u64,
    approve_again: bool,
)
    requires
        evaluate_claim_error(s, caller, claim_id, approve) is None,
    ensures
        evaluate_claim_error(evaluate_claim_next(s, claim_id, approve, now), caller, claim_id, approve_again)
            == Some(InsuranceError::ClaimNotPending),
{
}

/// A coverage limit that was set is the one reported for the asset, and no
/// other asset's limit changes.
pub proof fn law_coverage_limit_roundtrip(s: PoolView, caller: Seq<u8>, asset: Seq<u8>, limit_bps: i128, other: Seq<u8>)
    requires
        set_coverage_limit_error(s, caller, limit_bps as int) is None,
    ensures
        coverage_limit_of(set_coverage_limit_next(s, asset, limit_bps), asset) == limit_bps,
        other != asset ==> coverage_limit_of(set_coverage_limit_next(s, asset, limit_bps), other)
            == coverage_limit_of(s, other),
{
}

/// Only the admin may evaluate claims or set coverage limits: any other caller
/// is refused, with `NotInitialized` before initialisation and
/// `Unauthorized` after it.
pub proof fn law_admin_only(s: PoolView, caller: Seq<u8>, claim_id: int, approve: bool, limit_bps: int)
    requires
        s.admin != Some(caller),
    ensures
        evaluate_claim_error(s, caller, claim_id, approve) == Some(
            if s.admin is None {
                InsuranceError::NotInitialized
            } else {
                InsuranceError::Unauthorized
            },
        ),
        set_coverage_limit_error(s, caller, limit_bps) == Some(
            if s.admin is None {
                InsuranceError::NotInitialized
            } else {
                InsuranceError::Unauthorized
            },
        ),
{
}

/// Authorization comes before success: an operation that succeeds has asked
/// the expected address to authorize (the new admin, the payer, the
/// claimant, the admin), and one that asks for no authorization refuses,
/// with the error of the check that came first.
pub proof fn law_success_is_authorized(
    s: PoolView,
    caller: Seq<u8>,
    asset: Seq<u8>,
    amount: int,
    claim_id: int,
    approve: bool,
    limit_bps: int,
)
    ensures
        initialize_error(s) is None ==> initialize_auth(s, caller) == Some(caller),
        initialize_auth(s, caller) is None ==> initialize_error(s) == Some(InsuranceError::AlreadyInitialized),
        collect_premium_error(s, amount) is None ==> user_auth(s, caller, amount) == Some(caller),
        submit_claim_error(s, asset, amount) is None ==> user_auth(s, caller, amount) == Some(caller),
        user_auth(s, caller, amount) is None ==> collect_premium_error(s, amount) == Some(
            if s.admin is None {
                InsuranceError::NotInitialized
            } else {
                InsuranceError::InvalidAmount
            },
        ) && submit_claim_error(s, asset, amount) == collect_premium_error(s, amount),
        evaluate_claim_error(s, caller, claim_id, approve) is None ==> admin_auth(s, caller) == Some(caller),
        set_coverage_limit_error(s, caller, limit_bps) is None ==> admin_auth(s, caller) == Some(caller),
        admin_auth(s, caller) is None ==> evaluate_claim_error(s, caller, claim_id, approve) == admin_error(s, caller)
            && set_coverage_limit_error(s, caller, limit_bps) == admin_error(s, caller),
{
}

/// A claim is accepted only within its asset's share of the current pool
/// balance: with the pool initialised and a positive amount, the submission
/// succeeds exactly when `amount * 10_000 <= pool_balance * limit` (the
/// product saturating), where `limit` is the asset's coverage limit in bps,
/// 5 000 when none is set; otherwise it fails with `ExceedsCoverageLimit`.
pub proof fn law_claim_limited_by_current_pool(s: PoolView, asset: Seq<u8>, amount: int)
    requires
        valid_pool(s),
        s.admin is Some,
        amount > 0,
    ensures
        ({
            let limit: int = if s.coverage_limits.contains_key(asset) {
                s.coverage_limits[asset] as int
            } else {
                5000
            };
            &&& submit_claim_error(s, asset, amount) is None <==> amount * 10000 <= sat(s.pool_balance * limit)
            &&& submit_claim_error(s, asset, amount) is Some ==> submit_claim_error(s, asset, amount) == Some(
                InsuranceError::ExceedsCoverageLimit,
            )
        }),
{
    let limit: int = if s.coverage_limits.contains_key(asset) {
        s.coverage_limits[asset] as int
    } else {
        5000
    };
    let x = sat(s.pool_balance * limit);
    assert(s.pool_balance * limit >= 0) by (nonlinear_arith)
        requires
            s.pool_balance >= 0,
            limit >= 0,
    ;
    assert(amount <= x / 10000 <==> amount * 10000 <= x) by (nonlinear_arith)
        requires
            x >= 0,
    ;
}

/// The dynamic premium rate, in bps: 500 for an empty pool; otherwise, with
/// `u = claims_paid * 10_000 / pool_balance` (the product saturating), 500
/// once `u` reaches 10 000, and `50 + u * 450 / 10_000` below that.
pub proof fn law_dynamic_premium_formula(s: PoolView)
    requires
        s.pool_balance >= 0,
        s.total_claims_paid >= 0,
    ensures
        s.pool_balance == 0 ==> dynamic_premium(s) == 500,
        s.pool_balance > 0 ==> ({
            let u = sat(s.total_claims_paid * 10000) / (s.pool_balance as int);
            &&& u >= 10000 ==> dynamic_premium(s) == 500
            &&& u < 10000 ==> dynamic_premium(s) == 50 + u * 450 / 10000
        }),
{
    if s.pool_balance > 0 {
        let a = s.total_claims_paid * 10000;
        assert(a >= 0) by (nonlinear_arith)
            requires
                s.total_claims_paid >= 0,
                a == s.total_claims_paid * 10000,
        ;
        let u = sat(a) / (s.pool_balance as int);
        assert(u >= 0) by (nonlinear_arith)
            requires
                sat(a) >= 0,
                s.pool_balance > 0,
                u == sat(a) / (s.pool_balance as int),
        ;
        if u >= 10000 {
            assert(sat(u * 450) / 10000 >= 450) by (nonlinear_arith)
                requires
                    u >= 10000,
            ;
        } else {
            assert(0 <= u * 450 < 4500000) by (nonlinear_arith)
                requires
                    0 <= u < 10000,
            ;
            assert(u * 450 / 10000 < 450) by (nonlinear_arith)
                requires
                    0 <= u * 450 < 4500000,
            ;
        }
    }
}

/// Collecting a premium records the current dynamic rate for the asset and
/// adds `coverage_amount * rate / 10_000` (the product saturating) to the
/// pool and to the premiums collected; the emergency fund, claims paid and
/// fee contributions stay as they were.
pub proof fn law_collect_premium_charges_current_rate(s: PoolView, asset: Seq<u8>, coverage_amount: int)
    requires
        valid_pool(s),
        collect_premium_error(s, coverage_amount) is None,
    ensures
        ({
            let next = collect_premium_next(s, asset, coverage_amount);
            let premium = sat(coverage_amount * dynamic_premium(s)) / 10000;
            &&& next.premium_rates.contains_key(asset)
            &&& next.premium_rates[asset] == dynamic_premium(s)
            &&& next.pool_balance == s.pool_balance + premium
            &&& next.total_premiums_collected == sat(s.total_premiums_collected + premium)
            &&& next.emergency_fund == s.emergency_fund
            &&& next.total_claims_paid == s.total_claims_paid
            &&& next.total_fee_contributions == s.total_fee_contributions
        }),
{
}

/// The admin can always reject a pending claim, whatever the pool holds: the
/// rejection succeeds, marks the claim rejected at `now`, and moves no funds.
pub proof fn law_reject_always_possible(s: PoolView, caller: Seq<u8>, claim_id: int, now: u64)
    requires
        s.admin == Some(caller),
        1 <= claim_id <= s.claims.len(),
        s.claims[claim_id - 1].status == ClaimStatus::Pending,
    ensures
        evaluate_claim_error(s, caller, claim_id, false) is None,
        evaluate_claim_next(s, claim_id, false, now).pool_balance == s.pool_balance,
        evaluate_claim_next(s, claim_id, false, now).emergency_fund == s.emergency_fund,
        evaluate_claim_next(s, claim_id, false, now).total_claims_paid == s.total_claims_paid,
        evaluate_claim_next(s, claim_id, false, now).claims.len() == s.claims.len(),
        evaluate_claim_next(s, claim_id, false, now).claims[claim_id - 1].status == ClaimStatus::Rejected,
        evaluate_claim_next(s, claim_id, false, now).claims[claim_id - 1].resolved_at == now,
        evaluate_claim_next(s, claim_id, false, now).claims[claim_id - 1].amount == s.claims[claim_id - 1].amount,
{
}

/// Approving a claim needs the claim to fit in the part of the pool outside
/// the emergency fund: an approval that succeeds has
/// `amount <= pool_balance - emergency_fund`, and one of a larger pending
/// claim by the admin fails with `InsufficientPoolFunds`.
pub proof fn law_approval_within_available_funds(s: PoolView, caller: Seq<u8>, claim_id: int)
    requires
        valid_pool(s),
        s.admin == Some(caller),
        1 <= claim_id <= s.claims.len(),
        s.claims[claim_id - 1].status == ClaimStatus::Pending,
    ensures
        evaluate_claim_error(s, caller, claim_id, true) is None ==> s.claims[claim_id - 1].amount <= s.pool_balance
            - s.emergency_fund,
        s.claims[claim_id - 1].amount > s.pool_balance - s.emergency_fund ==> evaluate_claim_error(
            s,
            caller,
            claim_id,
            true,
        ) == Some(InsuranceError::InsufficientPoolFunds),
{
}

/// The admin's coverage limit is accepted exactly when it lies in
/// `[0, 5_000]` bps, and a contribution to an initialised pool exactly when
/// it is positive and the pool balance and the emergency fund, grown by the
/// amount and by a fifth of it (`amount * 2_000 / 10_000`, the product
/// saturating), stay within `i128`.
pub proof fn law_admin_and_funding_acceptance(s: PoolView, caller: Seq<u8>, limit_bps: int, amount: int)
    requires
        valid_pool(s),
        s.admin == Some(caller),
    ensures
        set_coverage_limit_error(s, caller, limit_bps) is None <==> 0 <= limit_bps <= 5000,
        set_coverage_limit_error(s, caller, limit_bps) is Some ==> set_coverage_limit_error(s, caller, limit_bps)
            == Some(InsuranceError::InvalidCoverageLimit),
        fund_pool_error(s, amount) is None <==> (amount > 0 && s.pool_balance + amount <= i128::MAX
            && s.emergency_fund + sat(amount * 2000) / 10000 <= i128::MAX),
{
    if amount > 0 {
        assert(amount * 2000 > 0) by (nonlinear_arith)
            requires
                amount > 0,
        ;
    }
}

} // verus!
