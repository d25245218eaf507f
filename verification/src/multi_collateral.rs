//! Multi-asset collateral.
//!
//! Users can deposit several distinct assets as collateral.  Each asset is
//! tracked per `(user, asset)` pair, and the assets of a user are enumerated
//! by the user's asset list.
//!
//! The total collateral value aggregates all per-asset balances using oracle
//! prices and each asset's collateral factor:
//!
//! `total_value = Σ( amount_i * price_i / PRICE_DECIMALS * collateral_factor_i / BPS_SCALE )`
//!
//! where `price_i` has 8 decimals and `collateral_factor_i` is in basis
//! points.  Users with an empty asset list (legacy single-asset users) have a
//! total of zero; callers then fall back to their aggregate balance.

use vstd::prelude::*;

use crate::address::{distinct_keys, entries_map, lemma_entries_map_value, Address, AddressMap};
use crate::arith::{div_toward_zero, in_i128, trunc_div, BPS_SCALE};

verus! {

/// Scale factor of oracle prices (8 decimal places).
pub const PRICE_DECIMALS: i128 = 100_000_000;

/// Errors specific to multi-asset collateral operations.
#[derive(Clone, Copy, Debug, PartialEq, Eq, Structural, PartialOrd, Ord)]
pub enum MultiCollateralError {
    /// Arithmetic overflow
    Overflow,
    /// Asset not found in user's collateral list
    AssetNotFound,
}

impl MultiCollateralError {
    /// The error's contract error code.
    pub fn code(&self) -> (r: u32)
        ensures
            r == match *self {
                MultiCollateralError::Overflow => 1u32,
                MultiCollateralError::AssetNotFound => 2u32,
            },
    {
        match *self {
            MultiCollateralError::Overflow => 1,
            MultiCollateralError::AssetNotFound => 2,
        }
    }
}

/// The abstract collateral records: per user and asset the deposited amount,
/// per user the asset list, per asset the collateral factor (bps) and the
/// oracle price (8 decimals), where these have been recorded.
#[verifier::ext_equal]
pub struct CollateralView {
    pub asset_collateral: Map<Seq<u8>, Map<Seq<u8>, i128>>,
    pub asset_lists: Map<Seq<u8>, Seq<Seq<u8>>>,
    pub collateral_factors: Map<Seq<u8>, i128>,
    pub oracle_prices: Map<Seq<u8>, i128>,
}

/// Collateral records of the protocol.
pub struct CollateralBook {
    asset_collateral: AddressMap<AddressMap<i128>>,
    asset_lists: AddressMap<Vec<Address>>,
    collateral_factors: AddressMap<i128>,
    oracle_prices: AddressMap<i128>,
}

/// The stored form of the collateral records, with every table as a list of
/// entries.
pub struct CollateralParts {
    pub asset_collateral: Vec<(Address, Vec<(Address, i128)>)>,
    pub asset_lists: Vec<(Address, Vec<Address>)>,
    pub collateral_factors: Vec<(Address, i128)>,
    pub oracle_prices: Vec<(Address, i128)>,
}

/// The records that stored parts describe.
pub open spec fn collateral_parts_view(p: CollateralParts) -> CollateralView {
    CollateralView {
        asset_collateral: Map::new(
            |u: Seq<u8>| entries_map(p.asset_collateral@).contains_key(u),
            |u: Seq<u8>| entries_map(entries_map(p.asset_collateral@)[u]@),
        ),
        asset_lists: Map::new(
            |u: Seq<u8>| entries_map(p.asset_lists@).contains_key(u),
            |u: Seq<u8>| addresses_view(entries_map(p.asset_lists@)[u]@),
        ),
        collateral_factors: entries_map(p.collateral_factors@),
        oracle_prices: entries_map(p.oracle_prices@),
    }
}

/// Stored parts describe records: every table's keys are distinct and every
/// asset list is consistent with the balances.
pub open spec fn collateral_parts_valid(p: CollateralParts) -> bool {
    &&& distinct_keys(p.asset_collateral@)
    &&& forall|i: int| 0 <= i < p.asset_collateral@.len() ==> distinct_keys(#[trigger] p.asset_collateral@[i].1@)
    &&& distinct_keys(p.asset_lists@)
    &&& distinct_keys(p.collateral_factors@)
    &&& distinct_keys(p.oracle_prices@)
    &&& lists_consistent(collateral_parts_view(p))
    &&& balances_nonnegative(collateral_parts_view(p))
}

/// Whether two entries of the list have the same key.
fn has_outer_duplicate(entries: &Vec<(Address, AddressMap<i128>)>) -> (r: bool)
    ensures
        r == !distinct_keys(entries@),
{
    crate::address::has_duplicate_key(entries)
}

/// A copy of a list of entries.
fn copy_entries(v: &Vec<(Address, i128)>) -> (r: Vec<(Address, i128)>)
    ensures
        r@.len() == v@.len(),
        forall|i: int| 0 <= i < v@.len() ==> (#[trigger] r@[i]).0@ == v@[i].0@ && r@[i].1 == v@[i].1,
{
    let mut out: Vec<(Address, i128)> = Vec::new();
    let mut i: usize = 0;
    while i < v.len()
        invariant
            i <= v@.len(),
            out@.len() == i,
            forall|j: int| 0 <= j < i ==> (#[trigger] out@[j]).0@ == v@[j].0@ && out@[j].1 == v@[j].1,
        decreases v@.len() - i,
    {
        out.push((v[i].0.duplicate(), v[i].1));
        i = i + 1;
    }
    out
}

/// Two entry lists with the same keys and values, the first with distinct
/// keys, describe the same table.
proof fn lemma_same_entries<V>(a: Seq<(Address, V)>, b: Seq<(Address, V)>)
    requires
        distinct_keys(a),
        a.len() == b.len(),
        forall|i: int| 0 <= i < a.len() ==> (#[trigger] a[i]).0@ == b[i].0@ && a[i].1 == b[i].1,
    ensures
        distinct_keys(b),
        entries_map(a) == entries_map(b),
{
    assert forall|i: int, j: int| 0 <= i < b.len() && 0 <= j < b.len() && i != j implies #[trigger] b[i].0@
        != #[trigger] b[j].0@ by {
        assert(a[i].0@ != a[j].0@);
    }
    assert forall|k: Seq<u8>| #[trigger] entries_map(a).contains_key(k) == entries_map(b).contains_key(k) by {
        if entries_map(a).contains_key(k) {
            let c = choose|i: int| 0 <= i < a.len() && #[trigger] a[i].0@ == k;
            assert(b[c].0@ == k);
        }
        if entries_map(b).contains_key(k) {
            let c = choose|i: int| 0 <= i < b.len() && #[trigger] b[i].0@ == k;
            assert(a[c].0@ == k);
        }
    }
    assert forall|k: Seq<u8>| #[trigger] entries_map(a).contains_key(k) implies entries_map(a)[k] == entries_map(
        b,
    )[k] by {
        let c = choose|i: int| 0 <= i < a.len() && #[trigger] a[i].0@ == k;
        lemma_entries_map_value(a, c);
        lemma_entries_map_value(b, c);
    }
    assert(entries_map(a) =~= entries_map(b));
}

pub open spec fn addresses_view(v: Seq<Address>) -> Seq<Seq<u8>> {
    v.map_values(|a: Address| a@)
}

/// The collateral of `user` in `asset`; zero when there is none.
pub open spec fn collateral_of(s: CollateralView, user: Seq<u8>, asset: Seq<u8>) -> int {
    if s.asset_collateral.contains_key(user) && s.asset_collateral[user].contains_key(asset) {
        s.asset_collateral[user][asset] as int
    } else {
        0
    }
}

/// The asset list of `user`; empty when there is none.
pub open spec fn asset_list_of(s: CollateralView, user: Seq<u8>) -> Seq<Seq<u8>> {
    if s.asset_lists.contains_key(user) {
        s.asset_lists[user]
    } else {
        Seq::empty()
    }
}

/// The asset list of `user` names each asset once, and names exactly the
/// assets in which the user holds a non-zero balance.
pub open spec fn list_consistent(s: CollateralView, user: Seq<u8>) -> bool {
    &&& asset_list_of(s, user).no_duplicates()
    &&& forall|a: Seq<u8>| #[trigger] asset_list_of(s, user).contains(a) <==> collateral_of(s, user, a) != 0
}

/// The list names each asset once and only assets with non-zero balances.
pub open spec fn list_forward(s: CollateralView, user: Seq<u8>) -> bool {
    &&& asset_list_of(s, user).no_duplicates()
    &&& forall|a: Seq<u8>| #[trigger] asset_list_of(s, user).contains(a) ==> collateral_of(s, user, a) != 0
}

/// A non-zero balance of `asset` is listed.
pub open spec fn list_backward(s: CollateralView, user: Seq<u8>, asset: Seq<u8>) -> bool {
    collateral_of(s, user, asset) != 0 ==> asset_list_of(s, user).contains(asset)
}

/// No balance is negative.
pub open spec fn balances_nonnegative(s: CollateralView) -> bool {
    forall|u: Seq<u8>, a: Seq<u8>| #[trigger] collateral_of(s, u, a) >= 0
}

/// Every user's asset list is consistent with the user's balances.
pub open spec fn lists_consistent(s: CollateralView) -> bool {
    forall|u: Seq<u8>| #[trigger] list_consistent(s, u)
}

/// The asset list after recording `amount` of `asset`: a non-zero balance
/// appends an asset that is not yet listed, a zero balance removes a listed
/// one, and otherwise the list stays.
pub open spec fn list_after_record(before: Seq<Seq<u8>>, after: Seq<Seq<u8>>, asset: Seq<u8>, amount: int) -> bool {
    if amount != 0 {
        if before.contains(asset) {
            after == before
        } else {
            after == before.push(asset)
        }
    } else {
        if before.contains(asset) {
            exists|i: int| 0 <= i < before.len() && before[i] == asset && after == before.remove(i)
        } else {
            after == before
        }
    }
}

/// The collateral factor of an asset; 100 % when none is configured.
pub open spec fn collateral_factor_of(s: CollateralView, asset: Seq<u8>) -> int {
    if s.collateral_factors.contains_key(asset) {
        s.collateral_factors[asset] as int
    } else {
        BPS_SCALE as int
    }
}

/// The oracle price of an asset; one unit (1:1 with the debt asset) when no
/// price is available.
pub open spec fn price_of(s: CollateralView, asset: Seq<u8>) -> int {
    if s.oracle_prices.contains_key(asset) {
        s.oracle_prices[asset] as int
    } else {
        PRICE_DECIMALS as int
    }
}

/// The weighted value of one position,
/// `amount * price / PRICE_DECIMALS * factor / BPS_SCALE` (each division
/// rounding toward zero), or `None` when a product leaves `i128`.
pub open spec fn asset_value(amount: int, price: int, factor: int) -> Option<int> {
    let with_price = amount * price;
    if !in_i128(with_price) {
        None
    } else {
        let weighted = trunc_div(with_price, PRICE_DECIMALS as int) * factor;
        if !in_i128(weighted) {
            None
        } else {
            Some(trunc_div(weighted, BPS_SCALE as int))
        }
    }
}

/// The total weighted value of `user`'s positions in `assets`, summed in
/// order and skipping zero balances, or `None` when a step leaves `i128`.
pub open spec fn total_value_of(s: CollateralView, user: Seq<u8>, assets: Seq<Seq<u8>>) -> Option<int>
    decreases assets.len(),
{
    if assets.len() == 0 {
        Some(0)
    } else {
        match total_value_of(s, user, assets.drop_last()) {
            None => None,
            Some(t) => {
                let a = assets.last();
                let amount = collateral_of(s, user, a);
                if amount == 0 {
                    Some(t)
                } else {
                    match asset_value(amount, price_of(s, a), collateral_factor_of(s, a)) {
                        None => None,
                        Some(v) => if in_i128(t + v) {
                            Some(t + v)
                        } else {
                            None
                        },
                    }
                }
            },
        }
    }
}

/// Once a prefix of the sum overflows, the whole sum does.
proof fn lemma_overflow_propagates(s: CollateralView, user: Seq<u8>, assets: Seq<Seq<u8>>, k: int)
    requires
        0 <= k <= assets.len(),
        total_value_of(s, user, assets.subrange(0, k)) is None,
    ensures
        total_value_of(s, user, assets) is None,
    decreases assets.len() - k,
{
    if k == assets.len() {
        assert(assets.subrange(0, k) =~= assets);
    } else {
        assert(assets.subrange(0, k + 1).drop_last() =~= assets.subrange(0, k));
        lemma_overflow_propagates(s, user, assets, k + 1);
    }
}

/// Recording a balance keeps the recording user's list consistent.
proof fn lemma_record_keeps_list_consistent(
    s0: CollateralView,
    s1: CollateralView,
    user: Seq<u8>,
    asset: Seq<u8>,
    amount: int,
)
    requires
        list_consistent(s0, user),
        list_after_record(asset_list_of(s0, user), asset_list_of(s1, user), asset, amount),
        forall|a: Seq<u8>| collateral_of(s1, user, a) == (if a == asset {
            amount
        } else {
            collateral_of(s0, user, a)
        }),
    ensures
        list_consistent(s1, user),
{
    let l0 = asset_list_of(s0, user);
    let l1 = asset_list_of(s1, user);
    if amount != 0 {
        if !l0.contains(asset) {
            assert(l1 == l0.push(asset));
            assert forall|i: int, j: int| 0 <= i < l1.len() && 0 <= j < l1.len() && i != j implies l1[i] != l1[j] by {
                if i < l0.len() && j < l0.len() {
                } else if i < l0.len() {
                    assert(l0.contains(l0[i]));
                } else {
                    assert(l0.contains(l0[j]));
                }
            }
            assert forall|a: Seq<u8>| #[trigger] l1.contains(a) <==> collateral_of(s1, user, a) != 0 by {
                if l1.contains(a) && a != asset {
                    let k = choose|k: int| 0 <= k < l1.len() && l1[k] == a;
                    assert(l0[k] == a);
                }
                if l0.contains(a) {
                    let k = choose|k: int| 0 <= k < l0.len() && l0[k] == a;
                    assert(l1[k] == a);
                }
                if a == asset {
                    assert(l1[l0.len() as int] == a);
                }
            }
        } else {
            assert forall|a: Seq<u8>| #[trigger] l1.contains(a) <==> collateral_of(s1, user, a) != 0 by {}
        }
    } else {
        if l0.contains(asset) {
            let i = choose|i: int| 0 <= i < l0.len() && l0[i] == asset && l1 == l0.remove(i);
            assert forall|x: int, y: int| 0 <= x < l1.len() && 0 <= y < l1.len() && x != y implies l1[x] != l1[y] by {
                let ox = if x < i { x } else { x + 1 };
                let oy = if y < i { y } else { y + 1 };
                assert(l1[x] == l0[ox]);
                assert(l1[y] == l0[oy]);
            }
            assert forall|a: Seq<u8>| #[trigger] l1.contains(a) <==> collateral_of(s1, user, a) != 0 by {
                if l1.contains(a) {
                    let k = choose|k: int| 0 <= k < l1.len() && l1[k] == a;
                    let ok = if k < i { k } else { k + 1 };
                    assert(l0[ok] == a);
                    assert(l0.contains(a));
                    assert(ok != i);
                }
                if collateral_of(s1, user, a) != 0 {
                    assert(a != asset);
                    assert(l0.contains(a));
                    let k = choose|k: int| 0 <= k < l0.len() && l0[k] == a;
                    assert(k != i);
                    let nk = if k < i { k } else { k - 1 };
                    assert(l1[nk] == a);
                }
            }
        } else {
            assert forall|a: Seq<u8>| #[trigger] l1.contains(a) <==> collateral_of(s1, user, a) != 0 by {}
        }
    }
}

impl View for CollateralBook {
    type V = CollateralView;

    closed spec fn view(&self) -> CollateralView {
        CollateralView {
            asset_collateral: Map::new(
                |u: Seq<u8>| self.asset_collateral@.contains_key(u),
                |u: Seq<u8>| self.asset_collateral@[u]@,
            ),
            asset_lists: Map::new(
                |u: Seq<u8>| self.asset_lists@.contains_key(u),
                |u: Seq<u8>| addresses_view(self.asset_lists@[u]@),
            ),
            collateral_factors: self.collateral_factors@,
            oracle_prices: self.oracle_prices@,
        }
    }
}

/// The weighted value of one position.
fn weighted_value(amount: i128, price: i128, factor: i128) -> (r: Result<i128, MultiCollateralError>)
    ensures
        match asset_value(amount as int, price as int, factor as int) {
            Some(v) => r == Ok::<i128, MultiCollateralError>(v as i128),
            None => r == Err::<i128, MultiCollateralError>(MultiCollateralError::Overflow),
        },
{
    let value_with_price = match amount.checked_mul(price) {
        Some(v) => v,
        None => return Err(MultiCollateralError::Overflow),
    };
    let value_in_base = div_toward_zero(value_with_price, PRICE_DECIMALS);
    let scaled = match value_in_base.checked_mul(factor) {
        Some(v) => v,
        None => return Err(MultiCollateralError::Overflow),
    };
    Ok(div_toward_zero(scaled, BPS_SCALE))
}

/// Whether no address occurs twice in `list`.
fn addresses_distinct(list: &Vec<Address>) -> (r: bool)
    ensures
        r == addresses_view(list@).no_duplicates(),
{
    let n = list.len();
    let mut i: usize = 0;
    while i < n
        invariant
            n == list@.len(),
            i <= n,
            forall|a: int, b: int| 0 <= a < i && a < b < n ==> #[trigger] list@[a]@ != #[trigger] list@[b]@,
        decreases n - i,
    {
        let mut j: usize = i + 1;
        while j < n
            invariant
                n == list@.len(),
                i < n,
                i + 1 <= j <= n,
                forall|a: int, b: int| 0 <= a < i && a < b < n ==> #[trigger] list@[a]@ != #[trigger] list@[b]@,
                forall|b: int| i < b < j ==> list@[i as int]@ != #[trigger] list@[b]@,
            decreases n - j,
        {
            if list[i].same_as(&list[j]) {
                proof {
                    let v = addresses_view(list@);
                    assert(v[i as int] == v[j as int]);
                }
                return false;
            }
            j = j + 1;
        }
        i = i + 1;
    }
    proof {
        let v = addresses_view(list@);
        assert forall|a: int, b: int| 0 <= a < v.len() && 0 <= b < v.len() && a != b implies v[a] != v[b] by {
            if a < b {
                assert(list@[a]@ != list@[b]@);
            } else {
                assert(list@[b]@ != list@[a]@);
            }
        }
    }
    true
}

/// The position of `a` in `list`, if it occurs.
fn position_of(list: &Vec<Address>, a: &Address) -> (r: Option<usize>)
    ensures
        match r {
            Some(k) => k < list@.len() && list@[k as int]@ == a@,
            None => forall|j: int| 0 <= j < list@.len() ==> (#[trigger] list@[j])@ != a@,
        },
{
    let mut i: usize = 0;
    while i < list.len()
        invariant
            i <= list@.len(),
            forall|j: int| 0 <= j < i ==> (#[trigger] list@[j])@ != a@,
        decreases list@.len() - i,
    {
        if list[i].same_as(a) {
            return Some(i);
        }
        i = i + 1;
    }
    None
}

/// A copy of a list of addresses.
fn duplicate_addresses(v: &Vec<Address>) -> (r: Vec<Address>)
    ensures
        addresses_view(r@) == addresses_view(v@),
{
    let mut out: Vec<Address> = Vec::new();
    let mut i: usize = 0;
    while i < v.len()
        invariant
            i <= v@.len(),
            out@.len() == i,
            forall|j: int| 0 <= j < i ==> (#[trigger] out@[j])@ == v@[j]@,
        decreases v@.len() - i,
    {
        out.push(v[i].duplicate());
        i = i + 1;
    }
    assert(addresses_view(out@) =~= addresses_view(v@));
    out
}

impl CollateralBook {
    /// The records are well formed, no balance is negative, and the asset
    /// lists are consistent with the balances.
    pub closed spec fn wf(&self) -> bool {
        &&& self.tables_wf()
        &&& lists_consistent(self@)
        &&& balances_nonnegative(self@)
    }

    /// Every table's keys are distinct.
    pub closed spec fn tables_wf(&self) -> bool {
        &&& self.asset_collateral.wf()
        &&& self.asset_lists.wf()
        &&& self.collateral_factors.wf()
        &&& self.oracle_prices.wf()
        &&& forall|u: Seq<u8>| #[trigger] self.asset_collateral@.contains_key(u) ==> self.asset_collateral@[u].wf()
    }

    /// Empty records.
    pub fn new() -> (b: CollateralBook)
        ensures
            b.wf(),
            b@ == (CollateralView {
                asset_collateral: Map::empty(),
                asset_lists: Map::empty(),
                collateral_factors: Map::empty(),
                oracle_prices: Map::empty(),
            }),
    {
        let b = CollateralBook {
            asset_collateral: AddressMap::new(),
            asset_lists: AddressMap::new(),
            collateral_factors: AddressMap::new(),
            oracle_prices: AddressMap::new(),
        };
        assert(b@.asset_collateral =~= Map::empty());
        assert(b@.asset_lists =~= Map::empty());
        assert forall|u: Seq<u8>| #[trigger] list_consistent(b@, u) by {
            assert(asset_list_of(b@, u) =~= Seq::<Seq<u8>>::empty());
        }
        assert forall|u: Seq<u8>, a: Seq<u8>| #[trigger] collateral_of(b@, u, a) >= 0 by {}
        b
    }

    /// The records that stored parts describe, when every table's keys are
    /// distinct.
    pub fn from_parts(parts: CollateralParts) -> (r: Option<CollateralBook>)
        ensures
            match r {
                Some(b) => collateral_parts_valid(parts) && b.wf() && b@ == collateral_parts_view(parts),
                None => !collateral_parts_valid(parts),
            },
    {
        let ghost pv = collateral_parts_view(parts);
        let ghost outer = parts.asset_collateral@;
        let mut converted: Vec<(Address, AddressMap<i128>)> = Vec::new();
        let mut i: usize = 0;
        while i < parts.asset_collateral.len()
            invariant
                outer == parts.asset_collateral@,
                i <= outer.len(),
                converted@.len() == i,
                forall|j: int| 0 <= j < i ==> distinct_keys(#[trigger] outer[j].1@),
                forall|j: int|
                    0 <= j < i ==> (#[trigger] converted@[j]).0@ == outer[j].0@ && converted@[j].1.wf()
                        && converted@[j].1@ == entries_map(outer[j].1@),
            decreases outer.len() - i,
        {
            let inner = copy_entries(&parts.asset_collateral[i].1);
            let ghost iv = inner@;
            let m = match AddressMap::from_entries(inner) {
                Some(m) => m,
                None => {
                    proof {
                        if distinct_keys(outer[i as int].1@) {
                            lemma_same_entries(outer[i as int].1@, iv);
                        }
                        assert(!collateral_parts_valid(parts));
                    }
                    return None;
                },
            };
            proof {
                lemma_same_entries(iv, outer[i as int].1@);
            }
            converted.push((parts.asset_collateral[i].0.duplicate(), m));
            i = i + 1;
        }
        if has_outer_duplicate(&converted) {
            proof {
                assert(!distinct_keys(outer)) by {
                    let (a, b) = choose|a: int, b: int|
                        0 <= a < converted@.len() && 0 <= b < converted@.len() && a != b && #[trigger] converted@[a].0@
                            == #[trigger] converted@[b].0@;
                    assert(outer[a].0@ == outer[b].0@);
                }
            }
            return None;
        }
        let asset_collateral = match AddressMap::from_entries(converted) {
            Some(m) => m,
            None => return None,
        };
        let asset_lists = match AddressMap::from_entries(parts.asset_lists) {
            Some(m) => m,
            None => return None,
        };
        let collateral_factors = match AddressMap::from_entries(parts.collateral_factors) {
            Some(m) => m,
            None => return None,
        };
        let oracle_prices = match AddressMap::from_entries(parts.oracle_prices) {
            Some(m) => m,
            None => return None,
        };
        let b = CollateralBook { asset_collateral, asset_lists, collateral_factors, oracle_prices };
        proof {
            let cv = converted@;
            assert(distinct_keys(outer)) by {
                assert forall|a: int, c: int| 0 <= a < outer.len() && 0 <= c < outer.len() && a != c implies #[trigger] outer[a].0@
                    != #[trigger] outer[c].0@ by {
                    assert(cv[a].0@ != cv[c].0@);
                }
            }
            assert forall|u: Seq<u8>| #[trigger] b.asset_collateral@.contains_key(u) implies b.asset_collateral@[u].wf() by {
                let c = choose|j: int| 0 <= j < cv.len() && #[trigger] cv[j].0@ == u;
                lemma_entries_map_value(cv, c);
            }
            assert forall|u: Seq<u8>| #[trigger] b@.asset_collateral.contains_key(u) == pv.asset_collateral.contains_key(u) by {
                if b@.asset_collateral.contains_key(u) {
                    let c = choose|j: int| 0 <= j < cv.len() && #[trigger] cv[j].0@ == u;
                    assert(outer[c].0@ == u);
                }
                if pv.asset_collateral.contains_key(u) {
                    let c = choose|j: int| 0 <= j < outer.len() && #[trigger] outer[j].0@ == u;
                    assert(cv[c].0@ == u);
                }
            }
            assert forall|u: Seq<u8>| #[trigger] b@.asset_collateral.contains_key(u) implies b@.asset_collateral[u]
                == pv.asset_collateral[u] by {
                let c = choose|j: int| 0 <= j < cv.len() && #[trigger] cv[j].0@ == u;
                lemma_entries_map_value(cv, c);
                lemma_entries_map_value(outer, c);
            }
            assert(b@.asset_collateral =~= pv.asset_collateral);
            assert(b@.asset_lists =~= pv.asset_lists);
            assert(b@ =~= pv);
        }
        if !b.check_lists_consistent() {
            return None;
        }
        if !b.check_balances_nonnegative() {
            return None;
        }
        Some(b)
    }

    /// The stored form of the records.
    pub fn into_parts(self) -> (r: CollateralParts)
        requires
            self.wf(),
        ensures
            collateral_parts_valid(r),
            collateral_parts_view(r) == self@,
    {
        let ghost v = self@;
        let ghost ac = self.asset_collateral@;
        let outer = self.asset_collateral.into_entries();
        let mut converted: Vec<(Address, Vec<(Address, i128)>)> = Vec::new();
        let mut i: usize = 0;
        while i < outer.len()
            invariant
                distinct_keys(outer@),
                entries_map(outer@) == ac,
                forall|u: Seq<u8>| #[trigger] ac.contains_key(u) ==> ac[u].wf(),
                i <= outer@.len(),
                converted@.len() == i,
                forall|j: int|
                    0 <= j < i ==> (#[trigger] converted@[j]).0@ == outer@[j].0@ && distinct_keys(converted@[j].1@)
                        && entries_map(converted@[j].1@) == outer@[j].1@,
            decreases outer@.len() - i,
        {
            proof {
                lemma_entries_map_value(outer@, i as int);
            }
            let inner = outer[i].1.duplicate().into_entries();
            converted.push((outer[i].0.duplicate(), inner));
            i = i + 1;
        }
        let r = CollateralParts {
            asset_collateral: converted,
            asset_lists: self.asset_lists.into_entries(),
            collateral_factors: self.collateral_factors.into_entries(),
            oracle_prices: self.oracle_prices.into_entries(),
        };
        proof {
            let cv = r.asset_collateral@;
            let ov = outer@;
            assert forall|a: int, c: int| 0 <= a < cv.len() && 0 <= c < cv.len() && a != c implies #[trigger] cv[a].0@
                != #[trigger] cv[c].0@ by {
                assert(ov[a].0@ != ov[c].0@);
            }
            let pv = collateral_parts_view(r);
            assert forall|u: Seq<u8>| #[trigger] pv.asset_collateral.contains_key(u) == v.asset_collateral.contains_key(u) by {
                if pv.asset_collateral.contains_key(u) {
                    let c = choose|j: int| 0 <= j < cv.len() && #[trigger] cv[j].0@ == u;
                    assert(ov[c].0@ == u);
                }
                if v.asset_collateral.contains_key(u) {
                    let c = choose|j: int| 0 <= j < ov.len() && #[trigger] ov[j].0@ == u;
                    assert(cv[c].0@ == u);
                }
            }
            assert forall|u: Seq<u8>| #[trigger] pv.asset_collateral.contains_key(u) implies pv.asset_collateral[u]
                == v.asset_collateral[u] by {
                let c = choose|j: int| 0 <= j < cv.len() && #[trigger] cv[j].0@ == u;
                lemma_entries_map_value(cv, c);
                lemma_entries_map_value(ov, c);
            }
            assert(pv.asset_collateral =~= v.asset_collateral);
            assert(pv.asset_lists =~= v.asset_lists);
            assert(pv =~= v);
        }
        r
    }

    /// Record the collateral of `user` in `asset`, as deposits and
    /// withdrawals do: the balance (never negative, since a withdrawal takes
    /// at most the balance) is set, and the user's asset list gains the asset
    /// when its balance becomes positive and loses it when the balance
    /// becomes zero.
    pub fn set_user_asset_collateral(&mut self, user: &Address, asset: &Address, amount: i128)
        requires
            old(self).wf(),
            amount >= 0,
        ensures
            final(self).wf(),
            final(self)@.asset_collateral == old(self)@.asset_collateral.insert(
                user@,
                if old(self)@.asset_collateral.contains_key(user@) {
                    old(self)@.asset_collateral[user@].insert(asset@, amount)
                } else {
                    Map::empty().insert(asset@, amount)
                },
            ),
            final(self)@.asset_lists == old(self)@.asset_lists.insert(user@, asset_list_of(final(self)@, user@)),
            list_after_record(asset_list_of(old(self)@, user@), asset_list_of(final(self)@, user@), asset@, amount as int),
            final(self)@.collateral_factors == old(self)@.collateral_factors,
            final(self)@.oracle_prices == old(self)@.oracle_prices,
    {
        let ghost s0 = self@;
        let ghost l0 = asset_list_of(s0, user@);
        proof {
            assert(list_consistent(s0, user@));
        }
        let mut list = self.get_user_asset_list(user);
        let found = position_of(&list, asset);
        proof {
            if found is None {
                assert forall|j: int| 0 <= j < l0.len() implies l0[j] != asset@ by {
                    assert(l0[j] == list@[j]@);
                    assert(list@[j]@ != asset@);
                }
                assert(!l0.contains(asset@));
            }
        }
        let ghost idx: int = match found { Some(k) => k as int, None => -1 };
        proof {
            if found is Some {
                assert(list@[idx]@ == asset@);
                assert(l0[idx] == asset@);
                assert(l0.contains(asset@));
            }
        }
        if amount != 0 {
            if found.is_none() {
                list.push(asset.duplicate());
                proof {
                    assert(addresses_view(list@) =~= l0.push(asset@));
                }
            }
        } else {
            match found {
                Some(k) => {
                    let ghost before = list@;
                    list.remove(k);
                    proof {
                        assert(addresses_view(list@) =~= l0.remove(k as int));
                    }
                },
                None => {},
            }
        }
        let ghost l1 = addresses_view(list@);
        let mut inner = match self.asset_collateral.get(user) {
            Some(m) => m.duplicate(),
            None => AddressMap::new(),
        };
        inner.set(asset, amount);
        self.asset_collateral.set(user, inner);
        self.asset_lists.set(user, list);
        proof {
            let s1 = self@;
            assert(s1.asset_collateral =~= s0.asset_collateral.insert(
                user@,
                if s0.asset_collateral.contains_key(user@) {
                    s0.asset_collateral[user@].insert(asset@, amount)
                } else {
                    Map::empty().insert(asset@, amount)
                },
            ));
            assert(s1.asset_lists =~= s0.asset_lists.insert(user@, l1));
            assert(asset_list_of(s1, user@) == l1);
            assert(list_after_record(l0, l1, asset@, amount as int));
            assert forall|a: Seq<u8>| collateral_of(s1, user@, a) == (if a == asset@ {
                amount as int
            } else {
                collateral_of(s0, user@, a)
            }) by {}
            assert forall|u: Seq<u8>, a: Seq<u8>| u != user@ implies collateral_of(s1, u, a) == collateral_of(s0, u, a)
                && asset_list_of(s1, u) == asset_list_of(s0, u) by {}
            assert forall|u: Seq<u8>| #[trigger] list_consistent(s1, u) by {
                assert(list_consistent(s0, u));
                if u == user@ {
                    lemma_record_keeps_list_consistent(s0, s1, user@, asset@, amount as int);
                }
            }
            assert forall|u: Seq<u8>, a: Seq<u8>| #[trigger] collateral_of(s1, u, a) >= 0 by {
                assert(collateral_of(s0, u, a) >= 0);
            }
        }
    }

    /// Record the collateral factor of an asset, in basis points.
    pub fn set_collateral_factor(&mut self, asset: &Address, factor: i128)
        requires
            old(self).wf(),
        ensures
            final(self).wf(),
            final(self)@ == (CollateralView {
                collateral_factors: old(self)@.collateral_factors.insert(asset@, factor),
                ..old(self)@
            }),
    {
        self.collateral_factors.set(asset, factor);
        proof {
            assert(self@.asset_collateral =~= old(self)@.asset_collateral);
            assert(self@.asset_lists =~= old(self)@.asset_lists);
            assert forall|u: Seq<u8>| #[trigger] list_consistent(self@, u) by {
                assert(list_consistent(old(self)@, u));
            }
            assert forall|u: Seq<u8>, a: Seq<u8>| #[trigger] collateral_of(self@, u, a) >= 0 by {
                assert(collateral_of(old(self)@, u, a) >= 0);
            }
        }
    }

    /// Record the oracle price of an asset (8 decimals).
    pub fn set_oracle_price(&mut self, asset: &Address, price: i128)
        requires
            old(self).wf(),
        ensures
            final(self).wf(),
            final(self)@ == (CollateralView {
                oracle_prices: old(self)@.oracle_prices.insert(asset@, price),
                ..old(self)@
            }),
    {
        self.oracle_prices.set(asset, price);
        proof {
            assert(self@.asset_collateral =~= old(self)@.asset_collateral);
            assert(self@.asset_lists =~= old(self)@.asset_lists);
            assert forall|u: Seq<u8>| #[trigger] list_consistent(self@, u) by {
                assert(list_consistent(old(self)@, u));
            }
            assert forall|u: Seq<u8>, a: Seq<u8>| #[trigger] collateral_of(self@, u, a) >= 0 by {
                assert(collateral_of(old(self)@, u, a) >= 0);
            }
        }
    }

    /// The collateral balance of a `(user, asset)` pair; 0 if the user has no
    /// position in the asset.
    pub fn get_user_asset_collateral(&self, user: &Address, asset: &Address) -> (r: i128)
        requires
            self.wf(),
        ensures
            r == collateral_of(self@, user@, asset@),
    {
        self.collateral_lookup(user, asset)
    }

    fn collateral_lookup(&self, user: &Address, asset: &Address) -> (r: i128)
        requires
            self.tables_wf(),
        ensures
            r == collateral_of(self@, user@, asset@),
    {
        match self.asset_collateral.get(user) {
            Some(m) => m.get_or(asset, 0),
            None => 0,
        }
    }

    /// Whether every asset list is consistent with the balances.
    fn check_lists_consistent(&self) -> (r: bool)
        requires
            self.tables_wf(),
        ensures
            r == lists_consistent(self@),
    {
        let ghost s = self@;
        let users = self.asset_lists.keys();
        let mut i: usize = 0;
        while i < users.len()
            invariant
                self.tables_wf(),
                s == self@,
                i <= users@.len(),
                forall|k: Seq<u8>| self.asset_lists@.contains_key(k) <==> exists|j: int| 0 <= j < users@.len() && #[trigger] users@[j]@ == k,
                forall|j: int| 0 <= j < users@.len() ==> self.asset_lists@.contains_key(#[trigger] users@[j]@),
                forall|j: int| 0 <= j < i ==> list_forward(s, #[trigger] users@[j]@),
            decreases users@.len() - i,
        {
            let u = &users[i];
            let list = match self.asset_lists.get(u) {
                Some(l) => l,
                None => {
                    return false;
                },
            };
            proof {
                assert(asset_list_of(s, u@) == addresses_view(list@));
            }
            if !addresses_distinct(list) {
                proof {
                    assert(!list_consistent(s, u@));
                }
                return false;
            }
            let mut j: usize = 0;
            while j < list.len()
                invariant
                    self.tables_wf(),
                    s == self@,
                    j <= list@.len(),
                    asset_list_of(s, u@) == addresses_view(list@),
                    forall|m: int| 0 <= m < j ==> collateral_of(s, u@, (#[trigger] list@[m])@) != 0,
                decreases list@.len() - j,
            {
                if self.collateral_lookup(u, &list[j]) == 0 {
                    proof {
                        let a = list@[j as int]@;
                        assert(addresses_view(list@)[j as int] == a);
                        assert(asset_list_of(s, u@).contains(a));
                        assert(!list_consistent(s, u@));
                    }
                    return false;
                }
                j = j + 1;
            }
            proof {
                assert forall|a: Seq<u8>| #[trigger] asset_list_of(s, u@).contains(a) implies collateral_of(s, u@, a) != 0 by {
                    let m = choose|m: int| 0 <= m < addresses_view(list@).len() && addresses_view(list@)[m] == a;
                    assert(list@[m]@ == a);
                }
            }
            i = i + 1;
        }
        let holders = self.asset_collateral.keys();
        let mut i: usize = 0;
        while i < holders.len()
            invariant
                self.tables_wf(),
                s == self@,
                i <= holders@.len(),
                forall|k: Seq<u8>| self.asset_collateral@.contains_key(k) <==> exists|j: int| 0 <= j < holders@.len() && #[trigger] holders@[j]@ == k,
                forall|j: int| 0 <= j < holders@.len() ==> self.asset_collateral@.contains_key(#[trigger] holders@[j]@),
                forall|j: int, a: Seq<u8>| #![trigger list_backward(s, holders@[j]@, a)] 0 <= j < i ==> list_backward(s, holders@[j]@, a),
                forall|k: Seq<u8>| self.asset_lists@.contains_key(k) <==> exists|j: int| 0 <= j < users@.len() && #[trigger] users@[j]@ == k,
                forall|j: int| 0 <= j < users@.len() ==> list_forward(s, #[trigger] users@[j]@),
            decreases holders@.len() - i,
        {
            let u = &holders[i];
            let inner = match self.asset_collateral.get(u) {
                Some(m) => m,
                None => {
                    return false;
                },
            };
            let assets = inner.keys();
            let mut j: usize = 0;
            while j < assets.len()
                invariant
                    self.tables_wf(),
                    s == self@,
                    inner.wf(),
                    s.asset_collateral.contains_key(u@),
                    s.asset_collateral[u@] == inner@,
                    j <= assets@.len(),
                    forall|k: Seq<u8>| inner@.contains_key(k) <==> exists|m: int| 0 <= m < assets@.len() && #[trigger] assets@[m]@ == k,
                    forall|m: int| 0 <= m < j ==> list_backward(s, u@, (#[trigger] assets@[m])@),
                decreases assets@.len() - j,
            {
                let a = &assets[j];
                if inner.get_or(a, 0) != 0 {
                    let listed = match self.asset_lists.get(u) {
                        Some(l) => position_of(l, a).is_some(),
                        None => false,
                    };
                    if !listed {
                        proof {
                            assert(collateral_of(s, u@, a@) != 0);
                            if s.asset_lists.contains_key(u@) {
                                assert forall|m: int| 0 <= m < asset_list_of(s, u@).len() implies asset_list_of(s, u@)[m] != a@ by {
                                }
                            }
                            assert(!asset_list_of(s, u@).contains(a@));
                            assert(!list_consistent(s, u@));
                        }
                        return false;
                    }
                    proof {
                        let l = self.asset_lists@[u@];
                        let k = choose|k: int| 0 <= k < l@.len() && l@[k]@ == a@;
                        assert(asset_list_of(s, u@)[k] == a@);
                    }
                }
                j = j + 1;
            }
            proof {
                assert forall|a: Seq<u8>| #[trigger] list_backward(s, u@, a) by {
                    if inner@.contains_key(a) {
                        let m = choose|m: int| 0 <= m < assets@.len() && #[trigger] assets@[m]@ == a;
                        assert(list_backward(s, u@, assets@[m]@));
                    }
                }
            }
            i = i + 1;
        }
        proof {
            assert forall|u: Seq<u8>| #[trigger] list_consistent(s, u) by {
                assert(list_forward(s, u)) by {
                    if s.asset_lists.contains_key(u) {
                        let j = choose|j: int| 0 <= j < users@.len() && #[trigger] users@[j]@ == u;
                        assert(list_forward(s, users@[j]@));
                    } else {
                        assert(asset_list_of(s, u) =~= Seq::<Seq<u8>>::empty());
                    }
                }
                assert forall|a: Seq<u8>| #[trigger] list_backward(s, u, a) by {
                    if s.asset_collateral.contains_key(u) {
                        let j = choose|j: int| 0 <= j < holders@.len() && #[trigger] holders@[j]@ == u;
                        assert(list_backward(s, holders@[j]@, a));
                    }
                }
                assert forall|a: Seq<u8>| #[trigger] asset_list_of(s, u).contains(a) <==> collateral_of(s, u, a) != 0 by {
                    assert(list_backward(s, u, a));
                }
            }
        }
        true
    }

    /// Whether every recorded balance is non-negative.
    fn check_balances_nonnegative(&self) -> (r: bool)
        requires
            self.tables_wf(),
        ensures
            r == balances_nonnegative(self@),
    {
        let ghost s = self@;
        let holders = self.asset_collateral.keys();
        let mut i: usize = 0;
        while i < holders.len()
            invariant
                self.tables_wf(),
                s == self@,
                i <= holders@.len(),
                forall|k: Seq<u8>| self.asset_collateral@.contains_key(k) <==> exists|j: int| 0 <= j < holders@.len() && #[trigger] holders@[j]@ == k,
                forall|j: int| 0 <= j < holders@.len() ==> self.asset_collateral@.contains_key(#[trigger] holders@[j]@),
                forall|j: int, a: Seq<u8>| #![trigger collateral_of(s, holders@[j]@, a)] 0 <= j < i ==> collateral_of(s, holders@[j]@, a) >= 0,
            decreases holders@.len() - i,
        {
            let u = &holders[i];
            let inner = match self.asset_collateral.get(u) {
                Some(m) => m,
                None => {
                    return false;
                },
            };
            let assets = inner.keys();
            let mut j: usize = 0;
            while j < assets.len()
                invariant
                    self.tables_wf(),
                    s == self@,
                    inner.wf(),
                    s.asset_collateral.contains_key(u@),
                    s.asset_collateral[u@] == inner@,
                    j <= assets@.len(),
                    forall|k: Seq<u8>| inner@.contains_key(k) <==> exists|m: int| 0 <= m < assets@.len() && #[trigger] assets@[m]@ == k,
                    forall|m: int| 0 <= m < j ==> collateral_of(s, u@, (#[trigger] assets@[m])@) >= 0,
                decreases assets@.len() - j,
            {
                if inner.get_or(&assets[j], 0) < 0 {
                    proof {
                        assert(collateral_of(s, u@, assets@[j as int]@) < 0);
                    }
                    return false;
                }
                j = j + 1;
            }
            proof {
                assert forall|a: Seq<u8>| #[trigger] collateral_of(s, u@, a) >= 0 by {
                    if inner@.contains_key(a) {
                        let m = choose|m: int| 0 <= m < assets@.len() && #[trigger] assets@[m]@ == a;
                        assert(collateral_of(s, u@, assets@[m]@) >= 0);
                    }
                }
            }
            i = i + 1;
        }
        proof {
            assert forall|u: Seq<u8>, a: Seq<u8>| #[trigger] collateral_of(s, u, a) >= 0 by {
                if s.asset_collateral.contains_key(u) {
                    let j = choose|j: int| 0 <= j < holders@.len() && #[trigger] holders@[j]@ == u;
                    assert(collateral_of(s, holders@[j]@, a) >= 0);
                }
            }
        }
        true
    }

    /// The assets in which the user has collateral; empty for legacy users.
    pub fn get_user_asset_list(&self, user: &Address) -> (r: Vec<Address>)
        requires
            self.wf(),
        ensures
            addresses_view(r@) == asset_list_of(self@, user@),
    {
        match self.asset_lists.get(user) {
            Some(list) => duplicate_addresses(list),
            None => {
                let r: Vec<Address> = Vec::new();
                assert(addresses_view(r@) =~= Seq::<Seq<u8>>::empty());
                r
            },
        }
    }

    /// The collateral factor of an asset (bps); 100 % when not configured.
    fn get_collateral_factor(&self, asset: &Address) -> (r: i128)
        requires
            self.wf(),
        ensures
            r == collateral_factor_of(self@, asset@),
    {
        self.collateral_factors.get_or(asset, BPS_SCALE)
    }

    /// The oracle price of an asset; one unit when no price is available.
    fn get_oracle_price(&self, asset: &Address) -> (r: i128)
        requires
            self.wf(),
        ensures
            r == price_of(self@, asset@),
    {
        self.oracle_prices.get_or(asset, PRICE_DECIMALS)
    }

    /// The total collateral value of a user across the assets of their asset
    /// list, weighted by oracle prices and collateral factors; `Overflow` when
    /// a step of the computation leaves `i128`.  Zero for an empty list.
    pub fn calculate_total_collateral_value(&self, user: &Address) -> (r: Result<i128, MultiCollateralError>)
        requires
            self.wf(),
        ensures
            match total_value_of(self@, user@, asset_list_of(self@, user@)) {
                Some(t) => r == Ok::<i128, MultiCollateralError>(t as i128),
                None => r == Err::<i128, MultiCollateralError>(MultiCollateralError::Overflow),
            },
    {
        let list = match self.asset_lists.get(user) {
            Some(l) => l,
            None => {
                return Ok(0);
            },
        };
        let ghost assets = addresses_view(list@);
        assert(assets == asset_list_of(self@, user@));
        let mut total: i128 = 0;
        let mut i: usize = 0;
        assert(assets.subrange(0, 0) =~= Seq::<Seq<u8>>::empty());
        while i < list.len()
            invariant
                self.wf(),
                i <= list@.len(),
                assets == addresses_view(list@),
                assets == asset_list_of(self@, user@),
                total_value_of(self@, user@, assets.subrange(0, i as int)) == Some(total as int),
            decreases list@.len() - i,
        {
            let asset = &list[i];
            proof {
                assert(assets.subrange(0, i + 1).drop_last() =~= assets.subrange(0, i as int));
                assert(assets.subrange(0, i + 1).last() == asset@);
            }
            let amount = self.get_user_asset_collateral(user, asset);
            if amount != 0 {
                let price = self.get_oracle_price(asset);
                let collateral_factor = self.get_collateral_factor(asset);
                let weighted = match weighted_value(amount, price, collateral_factor) {
                    Ok(w) => w,
                    Err(e) => {
                        proof {
                            lemma_overflow_propagates(self@, user@, assets, i + 1);
                        }
                        return Err(e);
                    },
                };
                total = match total.checked_add(weighted) {
                    Some(t) => t,
                    None => {
                        proof {
                            lemma_overflow_propagates(self@, user@, assets, i + 1);
                        }
                        return Err(MultiCollateralError::Overflow);
                    },
                };
            }
            i = i + 1;
        }
        assert(assets.subrange(0, list@.len() as int) =~= assets);
        Ok(total)
    }

    /// Whether the user has any per-asset collateral records (a non-empty
    /// asset list).
    pub fn has_multi_asset_collateral(&self, user: &Address) -> (r: bool)
        requires
            self.wf(),
        ensures
            r == (asset_list_of(self@, user@).len() > 0),
    {
        match self.asset_lists.get(user) {
            Some(list) => list.len() > 0,
            None => false,
        }
    }
}

// ─── Laws ───────────────────────────────────────────────────────────────────

/// In well-formed records no balance is negative, and a user's asset list
/// names each asset at most once and names an asset exactly when the user's
/// balance in it is positive; so no balance is counted twice in the total,
/// and none is left out.
pub proof fn law_listed_exactly_when_held(b: CollateralBook, user: Seq<u8>, asset: Seq<u8>)
    requires
        b.wf(),
    ensures
        collateral_of(b@, user, asset) >= 0,
        asset_list_of(b@, user).no_duplicates(),
        asset_list_of(b@, user).contains(asset) <==> collateral_of(b@, user, asset) > 0,
{
    assert(list_consistent(b@, user));
    assert(collateral_of(b@, user, asset) >= 0);
}

/// A user with an empty asset list (a legacy user) has a total collateral
/// value of zero and no multi-asset collateral.
pub proof fn law_legacy_user_total_is_zero(s: CollateralView, user: Seq<u8>)
    requires
        asset_list_of(s, user).len() == 0,
    ensures
        total_value_of(s, user, asset_list_of(s, user)) == Some(0int),
{
}

/// When the user holds a single asset with no oracle price, its value is the
/// amount weighted by the collateral factor: `amount * factor / BPS_SCALE`.
pub proof fn law_single_asset_without_price(s: CollateralView, user: Seq<u8>, asset: Seq<u8>)
    requires
        asset_list_of(s, user) == seq![asset],
        !s.oracle_prices.contains_key(asset),
        collateral_of(s, user, asset) > 0,
        in_i128(collateral_of(s, user, asset) * PRICE_DECIMALS),
        in_i128(collateral_of(s, user, asset) * collateral_factor_of(s, asset)),
    ensures
        total_value_of(s, user, asset_list_of(s, user)) == Some(
            trunc_div(collateral_of(s, user, asset) * collateral_factor_of(s, asset), BPS_SCALE as int),
        ),
{
    let amount = collateral_of(s, user, asset);
    assert(seq![asset].drop_last() =~= Seq::<Seq<u8>>::empty());
    assert((amount * PRICE_DECIMALS) / (PRICE_DECIMALS as int) == amount) by (nonlinear_arith)
        requires
            amount > 0,
    ;
    assert(amount * PRICE_DECIMALS >= 0) by (nonlinear_arith)
        requires
            amount > 0,
    ;
    let w = amount * collateral_factor_of(s, asset);
    if w >= 0 {
        assert(w / 10000 <= w) by (nonlinear_arith)
            requires
                w >= 0,
        ;
    } else {
        assert((-w) / 10000 <= -w) by (nonlinear_arith)
            requires
                w < 0,
        ;
    }
    let v = asset_value(amount, price_of(s, asset), collateral_factor_of(s, asset));
    assert(v == Some(trunc_div(w, BPS_SCALE as int)));
    assert(seq![asset].last() == asset);
    assert(total_value_of(s, user, Seq::<Seq<u8>>::empty()) == Some(0int));
}

/// Adding an asset with a zero balance to the end of the list leaves the
/// total unchanged.
pub proof fn law_zero_balance_adds_nothing(s: CollateralView, user: Seq<u8>, assets: Seq<Seq<u8>>, asset: Seq<u8>)
    requires
        collateral_of(s, user, asset) == 0,
    ensures
        total_value_of(s, user, assets.push(asset)) == total_value_of(s, user, assets),
{
    assert(assets.push(asset).drop_last() =~= assets);
}

/// Each listed position adds its weighted value to the total: appending an
/// asset with a non-zero balance `amount`, oracle price `p` (8 decimals;
/// 10^8 when none is set) and collateral factor `f` (bps; 10 000 when none is
/// set) adds `trunc(trunc(amount * p / 10^8) * f / 10_000)`, each division
/// rounding toward zero; when `amount * p` leaves `i128` the total is an
/// overflow.
pub proof fn law_total_adds_weighted_position(s: CollateralView, user: Seq<u8>, assets: Seq<Seq<u8>>, asset: Seq<u8>, t: int)
    requires
        total_value_of(s, user, assets) == Some(t),
        collateral_of(s, user, asset) != 0,
    ensures
        ({
            let amount = collateral_of(s, user, asset);
            let p: int = if s.oracle_prices.contains_key(asset) {
                s.oracle_prices[asset] as int
            } else {
                100_000_000
            };
            let f: int = if s.collateral_factors.contains_key(asset) {
                s.collateral_factors[asset] as int
            } else {
                10_000
            };
            let base = trunc_div(amount * p, 100_000_000);
            let v = trunc_div(base * f, 10_000);
            &&& !in_i128(amount * p) ==> total_value_of(s, user, assets.push(asset)) is None
            &&& in_i128(amount * p) && in_i128(base * f) && in_i128(t + v) ==> total_value_of(
                s,
                user,
                assets.push(asset),
            ) == Some(t + v)
        }),
{
    assert(assets.push(asset).drop_last() =~= assets);
    assert(assets.push(asset).last() == asset);
}

} // verus!
