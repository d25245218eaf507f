//! Treasury.
//!
//! Manages protocol fee collection and the treasury of the protocol:
//! - the protocol treasury address (admin only);
//! - the accumulated protocol reserve of each asset;
//! - withdrawing reserves to a recipient (admin only);
//! - the fee percentages (interest spread fee, liquidation fee).
//!
//! All write operations require the caller to be the protocol admin.  A
//! withdrawal of a token reserve hands back the event from which the host
//! performs the token transfer to the recipient.

use vstd::prelude::*;

use crate::address::{distinct_keys, entries_map, opt_view, Address, AddressMap};

verus! {

/// Errors that can occur during treasury operations.
#[derive(Clone, Copy, Debug, PartialEq, Eq, Structural, PartialOrd, Ord)]
pub enum TreasuryError {
    /// Caller is not the protocol admin
    Unauthorized,
    /// Amount must be greater than zero
    InvalidAmount,
    /// Requested amount exceeds protocol reserves
    InsufficientReserve,
    /// Overflow occurred during calculation
    Overflow,
    /// Treasury address has not been configured
    TreasuryNotSet,
    /// Fee value out of valid range (0–10000 bps)
    InvalidFee,
}

impl TreasuryError {
    /// The error's contract error code.
    pub fn code(&self) -> (r: u32)
        ensures
            r == match *self {
                TreasuryError::Unauthorized => 1u32,
                TreasuryError::InvalidAmount => 2u32,
                TreasuryError::InsufficientReserve => 3u32,
                TreasuryError::Overflow => 4u32,
                TreasuryError::TreasuryNotSet => 5u32,
                TreasuryError::InvalidFee => 6u32,
            },
    {
        match *self {
            TreasuryError::Unauthorized => 1,
            TreasuryError::InvalidAmount => 2,
            TreasuryError::InsufficientReserve => 3,
            TreasuryError::Overflow => 4,
            TreasuryError::TreasuryNotSet => 5,
            TreasuryError::InvalidFee => 6,
        }
    }
}

/// Storage keys of the treasury's own data.
#[derive(Clone, Copy, Debug, PartialEq, Eq, Structural)]
pub enum TreasuryDataKey {
    /// Protocol treasury address
    TreasuryAddress,
    /// Fee configuration for interest and liquidation fees
    FeeConfig,
}

/// Fee configuration for protocol revenue collection.
#[derive(Clone, Copy, Debug, PartialEq, Eq, Structural)]
pub struct TreasuryFeeConfig {
    /// Percentage of repaid interest routed to the protocol reserve (bps).
    pub interest_fee_bps: i128,
    /// Percentage of the liquidation bonus retained by the protocol (bps).
    pub liquidation_fee_bps: i128,
}

/// Default: 10% of interest goes to reserve
pub const DEFAULT_INTEREST_FEE_BPS: i128 = 1000;

/// Default: 10% of liquidation bonus goes to reserve
pub const DEFAULT_LIQUIDATION_FEE_BPS: i128 = 1000;

/// Highest fee, in basis points (100 %).
pub const MAX_FEE_BPS: i128 = 10000;

/// Published when the treasury address is set.
#[derive(Debug)]
pub struct TreasurySetEvent {
    pub admin: Address,
    pub treasury: Address,
    pub timestamp: u64,
}

/// Published when the fee configuration is updated.
#[derive(Debug)]
pub struct FeeConfigUpdatedEvent {
    pub admin: Address,
    pub interest_fee_bps: i128,
    pub liquidation_fee_bps: i128,
    pub timestamp: u64,
}

/// Published when reserves are withdrawn.
#[derive(Debug)]
pub struct ReservesClaimedEvent {
    pub admin: Address,
    pub asset: Option<Address>,
    pub recipient: Address,
    pub amount: i128,
    pub timestamp: u64,
}

/// A transfer that the host performs: `amount` of `asset` (`None` for native
/// XLM) from the contract to `recipient`.
#[derive(Debug)]
pub struct ReserveTransfer {
    pub asset: Option<Address>,
    pub recipient: Address,
    pub amount: i128,
}

/// The default fee configuration.
pub open spec fn default_fee_config_spec() -> TreasuryFeeConfig {
    TreasuryFeeConfig {
        interest_fee_bps: DEFAULT_INTEREST_FEE_BPS,
        liquidation_fee_bps: DEFAULT_LIQUIDATION_FEE_BPS,
    }
}

/// Return the default fee configuration used when none has been set.
pub fn default_fee_config() -> (r: TreasuryFeeConfig)
    ensures
        r == default_fee_config_spec(),
{
    TreasuryFeeConfig {
        interest_fee_bps: DEFAULT_INTEREST_FEE_BPS,
        liquidation_fee_bps: DEFAULT_LIQUIDATION_FEE_BPS,
    }
}

/// The abstract state of the treasury.  `None` stands for the native asset.
#[verifier::ext_equal]
pub struct TreasuryView {
    pub admin: Option<Seq<u8>>,
    pub treasury: Option<Seq<u8>>,
    pub fee_config: Option<TreasuryFeeConfig>,
    pub native_reserve: i128,
    pub token_reserves: Map<Seq<u8>, i128>,
}

/// The treasury state: the protocol admin, the treasury address, the fee
/// configuration and the protocol reserve of each asset.
pub struct Treasury {
    admin: Option<Address>,
    treasury: Option<Address>,
    fee_config: Option<TreasuryFeeConfig>,
    native_reserve: i128,
    token_reserves: AddressMap<i128>,
}

/// The stored form of the treasury, with the token reserves as a list of
/// entries.
pub struct TreasuryParts {
    pub admin: Option<Address>,
    pub treasury: Option<Address>,
    pub fee_config: Option<TreasuryFeeConfig>,
    pub native_reserve: i128,
    pub token_reserves: Vec<(Address, i128)>,
}

/// The treasury state that stored parts describe.
pub open spec fn treasury_parts_view(p: TreasuryParts) -> TreasuryView {
    TreasuryView {
        admin: opt_view(p.admin),
        treasury: opt_view(p.treasury),
        fee_config: p.fee_config,
        native_reserve: p.native_reserve,
        token_reserves: entries_map(p.token_reserves@),
    }
}

/// The reserve of an asset (`None` for the native asset), zero when unset.
pub open spec fn reserve_of(s: TreasuryView, asset: Option<Seq<u8>>) -> int {
    match asset {
        None => s.native_reserve as int,
        Some(a) => if s.token_reserves.contains_key(a) {
            s.token_reserves[a] as int
        } else {
            0
        },
    }
}

pub open spec fn with_reserve(s: TreasuryView, asset: Option<Seq<u8>>, amount: i128) -> TreasuryView {
    match asset {
        None => TreasuryView { native_reserve: amount, ..s },
        Some(a) => TreasuryView { token_reserves: s.token_reserves.insert(a, amount), ..s },
    }
}

/// The fee configuration in force: the one set, else the default.
pub open spec fn fee_config_of(s: TreasuryView) -> TreasuryFeeConfig {
    match s.fee_config {
        Some(c) => c,
        None => default_fee_config_spec(),
    }
}

pub open spec fn is_admin(s: TreasuryView, caller: Seq<u8>) -> bool {
    s.admin == Some(caller)
}

pub open spec fn fee_in_range(bps: i128) -> bool {
    0 <= bps <= MAX_FEE_BPS
}

pub open spec fn set_fee_config_error(s: TreasuryView, caller: Seq<u8>, config: TreasuryFeeConfig) -> Option<
    TreasuryError,
> {
    if !is_admin(s, caller) {
        Some(TreasuryError::Unauthorized)
    } else if !fee_in_range(config.interest_fee_bps) || !fee_in_range(config.liquidation_fee_bps) {
        Some(TreasuryError::InvalidFee)
    } else {
        None
    }
}

pub open spec fn claim_reserves_error(
    s: TreasuryView,
    caller: Seq<u8>,
    asset: Option<Seq<u8>>,
    amount: int,
) -> Option<TreasuryError> {
    if !is_admin(s, caller) {
        Some(TreasuryError::Unauthorized)
    } else if amount <= 0 {
        Some(TreasuryError::InvalidAmount)
    } else if amount > reserve_of(s, asset) {
        Some(TreasuryError::InsufficientReserve)
    } else {
        None
    }
}

impl View for Treasury {
    type V = TreasuryView;

    closed spec fn view(&self) -> TreasuryView {
        TreasuryView {
            admin: opt_view(self.admin),
            treasury: opt_view(self.treasury),
            fee_config: self.fee_config,
            native_reserve: self.native_reserve,
            token_reserves: self.token_reserves@,
        }
    }
}

fn duplicate_opt(a: &Option<Address>) -> (r: Option<Address>)
    ensures
        opt_view(r) == opt_view(*a),
{
    match a {
        Some(x) => Some(x.duplicate()),
        None => None,
    }
}

impl Treasury {
    pub closed spec fn wf(&self) -> bool {
        self.token_reserves.wf()
    }

    /// A treasury whose protocol admin is `admin` (none when the protocol has
    /// not been initialised), with no treasury address, the default fees and
    /// empty reserves.
    pub fn new(admin: Option<Address>) -> (t: Treasury)
        ensures
            t.wf(),
            t@ == (TreasuryView {
                admin: opt_view(admin),
                treasury: None,
                fee_config: None,
                native_reserve: 0,
                token_reserves: Map::empty(),
            }),
    {
        Treasury {
            admin,
            treasury: None,
            fee_config: None,
            native_reserve: 0,
            token_reserves: AddressMap::new(),
        }
    }

    /// The treasury that stored parts describe, when the reserve entries have
    /// distinct assets.
    pub fn from_parts(parts: TreasuryParts) -> (r: Option<Treasury>)
        ensures
            match r {
                Some(t) => distinct_keys(parts.token_reserves@) && t.wf() && t@ == treasury_parts_view(parts),
                None => !distinct_keys(parts.token_reserves@),
            },
    {
        let ghost pv = treasury_parts_view(parts);
        let token_reserves = match AddressMap::from_entries(parts.token_reserves) {
            Some(m) => m,
            None => return None,
        };
        let t = Treasury {
            admin: parts.admin,
            treasury: parts.treasury,
            fee_config: parts.fee_config,
            native_reserve: parts.native_reserve,
            token_reserves,
        };
        assert(t@ =~= pv);
        Some(t)
    }

    /// The stored form of the treasury.
    pub fn into_parts(self) -> (r: TreasuryParts)
        requires
            self.wf(),
        ensures
            distinct_keys(r.token_reserves@),
            treasury_parts_view(r) == self@,
    {
        let ghost v = self@;
        let r = TreasuryParts {
            admin: self.admin,
            treasury: self.treasury,
            fee_config: self.fee_config,
            native_reserve: self.native_reserve,
            token_reserves: self.token_reserves.into_entries(),
        };
        assert(treasury_parts_view(r) =~= v);
        r
    }

    fn require_admin(&self, caller: &Address) -> (r: Result<(), TreasuryError>)
        ensures
            r is Ok <==> is_admin(self@, caller@),
            r is Err ==> r == Err::<(), TreasuryError>(TreasuryError::Unauthorized),
    {
        match &self.admin {
            Some(a) => if a.same_as(caller) {
                Ok(())
            } else {
                Err(TreasuryError::Unauthorized)
            },
            None => Err(TreasuryError::Unauthorized),
        }
    }

    /// The address whose authorization `set_treasury`, `set_fee_config` and
    /// `claim_reserves` ask for: the caller's, before any check, so it is owed
    /// on every call, refused ones included.
    pub fn admin_call_signer(&self, caller: &Address) -> (r: Address)
        ensures
            r@ == caller@,
    {
        caller.duplicate()
    }

    /// Set the protocol treasury address (admin only).  Returns the event to
    /// publish.
    pub fn set_treasury(&mut self, caller: &Address, treasury: &Address, now: u64) -> (r: Result<
        TreasurySetEvent,
        TreasuryError,
    >)
        requires
            old(self).wf(),
        ensures
            final(self).wf(),
            !is_admin(old(self)@, caller@) ==> (r matches Err(e) && e == TreasuryError::Unauthorized
                && final(self)@ == old(self)@),
            is_admin(old(self)@, caller@) ==> (r matches Ok(ev) && final(self)@ == (TreasuryView {
                treasury: Some(treasury@),
                ..old(self)@
            }) && ev.admin@ == caller@ && ev.treasury@ == treasury@ && ev.timestamp == now),
    {
        match self.require_admin(caller) {
            Err(e) => return Err(e),
            Ok(()) => {},
        }
        self.treasury = Some(treasury.duplicate());
        assert(self@ =~= TreasuryView { treasury: Some(treasury@), ..old(self)@ });
        Ok(TreasurySetEvent { admin: caller.duplicate(), treasury: treasury.duplicate(), timestamp: now })
    }

    /// The configured treasury address, if any.
    pub fn get_treasury(&self) -> (r: Option<Address>)
        ensures
            opt_view(r) == self@.treasury,
    {
        duplicate_opt(&self.treasury)
    }

    /// The fee configuration in force (the default when none has been set).
    pub fn get_fee_config(&self) -> (r: TreasuryFeeConfig)
        ensures
            r == fee_config_of(self@),
    {
        match self.fee_config {
            Some(c) => c,
            None => default_fee_config(),
        }
    }

    /// Update the fee configuration (admin only); each fee must lie in
    /// `[0, 10000]` basis points.  Returns the event to publish.
    pub fn set_fee_config(&mut self, caller: &Address, config: TreasuryFeeConfig, now: u64) -> (r: Result<
        FeeConfigUpdatedEvent,
        TreasuryError,
    >)
        requires
            old(self).wf(),
        ensures
            final(self).wf(),
            match set_fee_config_error(old(self)@, caller@, config) {
                Some(e) => r matches Err(e2) && e2 == e && final(self)@ == old(self)@,
                None => r matches Ok(ev) && final(self)@ == (TreasuryView {
                    fee_config: Some(config),
                    ..old(self)@
                }) && ev.admin@ == caller@ && ev.interest_fee_bps == config.interest_fee_bps
                    && ev.liquidation_fee_bps == config.liquidation_fee_bps && ev.timestamp == now,
            },
    {
        match self.require_admin(caller) {
            Err(e) => return Err(e),
            Ok(()) => {},
        }
        if config.interest_fee_bps < 0 || config.interest_fee_bps > MAX_FEE_BPS {
            return Err(TreasuryError::InvalidFee);
        }
        if config.liquidation_fee_bps < 0 || config.liquidation_fee_bps > MAX_FEE_BPS {
            return Err(TreasuryError::InvalidFee);
        }
        self.fee_config = Some(config);
        assert(self@ =~= TreasuryView { fee_config: Some(config), ..old(self)@ });
        Ok(
            FeeConfigUpdatedEvent {
                admin: caller.duplicate(),
                interest_fee_bps: config.interest_fee_bps,
                liquidation_fee_bps: config.liquidation_fee_bps,
                timestamp: now,
            },
        )
    }

    /// The accumulated protocol reserve of an asset (`None` for native XLM).
    pub fn get_reserve_balance(&self, asset: &Option<Address>) -> (r: i128)
        requires
            self.wf(),
        ensures
            r == reserve_of(self@, opt_view(*asset)),
    {
        match asset {
            None => self.native_reserve,
            Some(a) => self.token_reserves.get_or(a, 0),
        }
    }

    /// Record the reserve of an asset, as the lending operations that accrue
    /// protocol fees do.
    pub fn set_reserve_balance(&mut self, asset: &Option<Address>, amount: i128)
        requires
            old(self).wf(),
        ensures
            final(self).wf(),
            final(self)@ == with_reserve(old(self)@, opt_view(*asset), amount),
    {
        match asset {
            None => {
                self.native_reserve = amount;
            },
            Some(a) => {
                self.token_reserves.set(a, amount);
            },
        }
        assert(self@ =~= with_reserve(old(self)@, opt_view(*asset), amount));
    }

    /// Withdraw `amount` of an asset's reserve to `recipient` (admin only).
    /// Returns the event to publish and the transfer of the withdrawn amount
    /// of the asset, native XLM included, from the contract to the recipient;
    /// a refused withdrawal owes no transfer.
    pub fn claim_reserves(
        &mut self,
        caller: &Address,
        asset: &Option<Address>,
        recipient: &Address,
        amount: i128,
        now: u64,
    ) -> (r: Result<(ReservesClaimedEvent, ReserveTransfer), TreasuryError>)
        requires
            old(self).wf(),
        ensures
            final(self).wf(),
            match claim_reserves_error(old(self)@, caller@, opt_view(*asset), amount as int) {
                Some(e) => r matches Err(e2) && e2 == e && final(self)@ == old(self)@,
                None => r matches Ok((ev, transfer)) && final(self)@ == with_reserve(
                    old(self)@,
                    opt_view(*asset),
                    (reserve_of(old(self)@, opt_view(*asset)) - amount) as i128,
                ) && ev.admin@ == caller@ && opt_view(ev.asset) == opt_view(*asset) && ev.recipient@ == recipient@
                    && ev.amount == amount && ev.timestamp == now && opt_view(transfer.asset) == opt_view(*asset)
                    && transfer.recipient@ == recipient@ && transfer.amount == amount,
            },
    {
        match self.require_admin(caller) {
            Err(e) => return Err(e),
            Ok(()) => {},
        }
        if amount <= 0 {
            return Err(TreasuryError::InvalidAmount);
        }
        let current_reserve = self.get_reserve_balance(asset);
        if amount > current_reserve {
            return Err(TreasuryError::InsufficientReserve);
        }
        let new_reserve = match current_reserve.checked_sub(amount) {
            Some(v) => v,
            None => return Err(TreasuryError::Overflow),
        };
        self.set_reserve_balance(asset, new_reserve);
        let ev = ReservesClaimedEvent {
            admin: caller.duplicate(),
            asset: duplicate_opt(asset),
            recipient: recipient.duplicate(),
            amount,
            timestamp: now,
        };
        let transfer = ReserveTransfer { asset: duplicate_opt(asset), recipient: recipient.duplicate(), amount };
        Ok((ev, transfer))
    }
}

// ─── Laws ───────────────────────────────────────────────────────────────────

/// Before any fee configuration is set, the default one (10 % and 10 %) is in
/// force; after a successful update, the new one is.
pub proof fn law_fee_config_roundtrip(s: TreasuryView, caller: Seq<u8>, config: TreasuryFeeConfig)
    requires
        set_fee_config_error(s, caller, config) is None,
    ensures
        s.fee_config is None ==> fee_config_of(s) == default_fee_config_spec(),
        fee_config_of(TreasuryView { fee_config: Some(config), ..s }) == config,
        fee_in_range(config.interest_fee_bps) && fee_in_range(config.liquidation_fee_bps),
{
}

/// Withdrawing reserves takes exactly the amount from that asset's reserve
/// and leaves it non-negative; the reserves of other assets are unchanged.
pub proof fn law_claim_reserves_effect(
    s: TreasuryView,
    caller: Seq<u8>,
    asset: Option<Seq<u8>>,
    amount: int,
    other: Option<Seq<u8>>,
)
    requires
        claim_reserves_error(s, caller, asset, amount) is None,
    ensures
        reserve_of(with_reserve(s, asset, (reserve_of(s, asset) - amount) as i128), asset) == reserve_of(s, asset)
            - amount,
        reserve_of(with_reserve(s, asset, (reserve_of(s, asset) - amount) as i128), asset) >= 0,
        other != asset ==> reserve_of(with_reserve(s, asset, (reserve_of(s, asset) - amount) as i128), other)
            == reserve_of(s, other),
{
}

/// Only the protocol admin may change the treasury: every other caller gets
/// `Unauthorized`.
pub proof fn law_treasury_admin_only(
    s: TreasuryView,
    caller: Seq<u8>,
    config: TreasuryFeeConfig,
    asset: Option<Seq<u8>>,
    amount: int,
)
    requires
        !is_admin(s, caller),
    ensures
        set_fee_config_error(s, caller, config) == Some(TreasuryError::Unauthorized),
        claim_reserves_error(s, caller, asset, amount) == Some(TreasuryError::Unauthorized),
{
}

/// The admin's requests are refused only for bad values: a fee configuration
/// is accepted exactly when both fees lie in `[0, 10_000]` bps, and a reserve
/// withdrawal exactly when `0 < amount <= reserve` for that asset.
pub proof fn law_admin_requests_accepted(
    s: TreasuryView,
    caller: Seq<u8>,
    config: TreasuryFeeConfig,
    asset: Option<Seq<u8>>,
    amount: int,
)
    requires
        s.admin == Some(caller),
    ensures
        set_fee_config_error(s, caller, config) is None <==> (0 <= config.interest_fee_bps <= 10_000
            && 0 <= config.liquidation_fee_bps <= 10_000),
        set_fee_config_error(s, caller, config) is Some ==> set_fee_config_error(s, caller, config) == Some(
            TreasuryError::InvalidFee,
        ),
        claim_reserves_error(s, caller, asset, amount) is None <==> (0 < amount && amount <= match asset {
            None => s.native_reserve as int,
            Some(a) => if s.token_reserves.contains_key(a) {
                s.token_reserves[a] as int
            } else {
                0
            },
        }),
{
}

} // verus!
