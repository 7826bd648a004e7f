//! The yLuna launch pool: bonded yLuna earns PRISM from a linear distribution
//! schedule, split between a base pool (weighted by bond) and a boost pool
//! (weighted by `sqrt(bond * boost)`); withdrawn rewards vest for a period
//! before they can be claimed.

use crate::math::{
    decimal_mul, decimal_ratio, from_ratio, integer_sqrt, mul_floor, multiply_ratio, ratio_of,
    DECIMAL_FRACTIONAL,
};
use crate::limit_order::{at_most, bytes_le, lemma_lex_total, lex_le};
use vstd::prelude::*;
use vstd::slice::slice_to_vec;
use vstd::utf8::encode_utf8;

verus! {

/// Seconds in a day; vesting end times are rounded down to whole days.
pub const TIME_UNIT: u64 = 86400u64;

/// At most this many scheduled vests are released by one call.
pub const MAX_UPDATE_VEST_PER_TX: u64 = 50u64;

/// Why an operation of the launch pool is rejected.
#[derive(Clone, Debug, PartialEq, Eq)]
pub enum ContractError {
    /// The sender may not perform this operation.
    Unauthorized,
    /// The distribution schedule starts after it ends.
    InvalidDistributionSchedule,
    /// The base pool ratio is above one.
    InvalidBasePoolRatio,
    /// The bond is smaller than the configured minimum.
    BondTooLow { min_bond_amount: u128 },
    /// The sender has nothing bonded.
    NoTokensBonded,
    /// The unbond asks for more than is bonded.
    UnbondTooLarge,
    /// There is nothing to claim.
    NoClaimableRewards,
    /// A checked subtraction underflowed (the contract reports an overflow error).
    Overflow,
    /// An arithmetic step overflows or divides by zero, which aborts the transaction.
    Aborted,
}

/// A linear release of `amount` tokens from time `start` to time `end`.
#[derive(Clone, Copy, Debug, PartialEq, Eq)]
pub struct Schedule {
    pub start: u64,
    pub end: u64,
    pub amount: u128,
}

/// Progress of one reward pool. `reward_index` is a decimal in atomic units.
#[derive(Clone, Copy, Debug, PartialEq, Eq)]
pub struct DistributionStatus {
    pub total_distributed: u128,
    pub total_weight: u128,
    pub pending_reward: u128,
    pub reward_index: u128,
}

impl DistributionStatus {
    /// The status a pool starts with.
    pub fn new() -> (r: DistributionStatus)
        ensures
            r == (DistributionStatus {
                total_distributed: 0,
                total_weight: 0,
                pending_reward: 0,
                reward_index: 0,
            }),
    {
        DistributionStatus { total_distributed: 0, total_weight: 0, pending_reward: 0, reward_index: 0 }
    }
}

/// A staker's reward bookkeeping. The indexes are decimals in atomic units.
#[derive(Clone, Copy, Debug, PartialEq, Eq)]
pub struct RewardInfo {
    pub base_index: u128,
    pub boost_index: u128,
    pub active_boost: u128,
    pub boost_weight: u128,
    pub pending_reward: u128,
}

/// The smaller of two integers.
pub open spec fn min_int(a: int, b: int) -> int {
    if a < b { a } else { b }
}

/// The part of `amount` a schedule from `start` to `end` has released at `now`
/// (for `start <= now` and `start < end`).
pub open spec fn released(now: u64, start: u64, end: u64, amount: u128) -> int {
    ratio_of(amount as int, min_int(now - start, end - start), end - start)
}

/// `status` after distributing what the schedule has released by `now`, scaled
/// by `ratio`; an error where the contract aborts.
pub open spec fn spec_update_reward_index(
    now: u64,
    status: DistributionStatus,
    schedule: Schedule,
    ratio: u128,
) -> Result<DistributionStatus, ContractError> {
    let (start, end, amount) = (schedule.start, schedule.end, schedule.amount);
    if now < start {
        Ok(status)
    } else if end <= start {
        Err(ContractError::Aborted)
    } else {
        let total = decimal_mul(released(now, start, end, amount), ratio as int);
        if total > u128::MAX || total < status.total_distributed {
            Err(ContractError::Aborted)
        } else {
            let here = total - status.total_distributed;
            if status.total_weight == 0 {
                if status.pending_reward + here > u128::MAX {
                    Err(ContractError::Aborted)
                } else {
                    Ok(
                        DistributionStatus {
                            total_distributed: total as u128,
                            pending_reward: (status.pending_reward + here) as u128,
                            ..status
                        },
                    )
                }
            } else {
                let to_share = here + status.pending_reward;
                let per_bond = decimal_ratio(to_share, status.total_weight as int);
                if to_share > u128::MAX || per_bond > u128::MAX || status.reward_index + per_bond
                    > u128::MAX {
                    Err(ContractError::Aborted)
                } else {
                    Ok(
                        DistributionStatus {
                            total_distributed: total as u128,
                            total_weight: status.total_weight,
                            pending_reward: 0,
                            reward_index: (status.reward_index + per_bond) as u128,
                        },
                    )
                }
            }
        }
    }
}

proof fn lemma_released_bounded(now: u64, start: u64, end: u64, amount: u128)
    requires
        start <= now,
        start < end,
    ensures
        0 <= released(now, start, end, amount) <= amount,
{
    let e = min_int(now - start, end - start);
    let d = end - start;
    assert(0 <= e <= d);
    assert(amount * e <= amount * d) by (nonlinear_arith)
        requires
            0 <= e <= d,
            amount >= 0,
    ;
    assert(amount * d / d == amount as int) by (nonlinear_arith)
        requires
            d > 0,
    ;
    assert((amount * e) / d <= (amount * d) / d) by (nonlinear_arith)
        requires
            amount * e <= amount * d,
            d > 0,
    ;
    assert(0 <= (amount * e) / d) by (nonlinear_arith)
        requires
            amount * e >= 0,
            d > 0,
    ;
}

/// Brings `status` up to date with the distribution schedule at time `now`.
///
/// Before the schedule starts nothing changes. Otherwise the pool's share
/// (`ratio`) of what the schedule has released so far becomes
/// `total_distributed`; the newly released part is added to `pending_reward`
/// while nothing is bonded, and otherwise spread (with what was pending) over
/// the total weight by raising `reward_index`.
pub fn _update_reward_index(
    now: u64,
    status: &DistributionStatus,
    schedule: Schedule,
    ratio: u128,
) -> (r: Result<DistributionStatus, ContractError>)
    ensures
        r == spec_update_reward_index(now, *status, schedule, ratio),
{
    let (start, end, amount) = (schedule.start, schedule.end, schedule.amount);
    if now < start {
        return Ok(*status);
    }
    if end <= start {
        return Err(ContractError::Aborted);
    }
    let denom: u64 = end - start;
    let elapsed: u64 = if now - start < denom { now - start } else { denom };
    proof {
        lemma_released_bounded(now, start, end, amount);
    }
    let released_amount = match multiply_ratio(amount, elapsed as u128, denom as u128) {
        Some(v) => v,
        None => return Err(ContractError::Aborted),
    };
    let total = match mul_floor(released_amount, ratio) {
        Some(v) => v,
        None => return Err(ContractError::Aborted),
    };
    if total < status.total_distributed {
        return Err(ContractError::Aborted);
    }
    let here = total - status.total_distributed;
    if status.total_weight == 0 {
        match status.pending_reward.checked_add(here) {
            Some(p) => Ok(DistributionStatus { total_distributed: total, pending_reward: p, ..*status }),
            None => Err(ContractError::Aborted),
        }
    } else {
        let to_share = match here.checked_add(status.pending_reward) {
            Some(v) => v,
            None => return Err(ContractError::Aborted),
        };
        let per_bond = match from_ratio(to_share, status.total_weight) {
            Some(v) => v,
            None => return Err(ContractError::Aborted),
        };
        match status.reward_index.checked_add(per_bond) {
            Some(index) => Ok(
                DistributionStatus {
                    total_distributed: total,
                    total_weight: status.total_weight,
                    pending_reward: 0,
                    reward_index: index,
                },
            ),
            None => Err(ContractError::Aborted),
        }
    }
}

/// Updating a pool twice at the same time changes nothing the second time.
pub proof fn lemma_update_reward_index_idempotent(
    now: u64,
    status: DistributionStatus,
    schedule: Schedule,
    ratio: u128,
)
    requires
        spec_update_reward_index(now, status, schedule, ratio) is Ok,
    ensures
        spec_update_reward_index(
            now,
            spec_update_reward_index(now, status, schedule, ratio)->Ok_0,
            schedule,
            ratio,
        ) == spec_update_reward_index(now, status, schedule, ratio),
{
    let (start, end, amount) = (schedule.start, schedule.end, schedule.amount);
    let once = spec_update_reward_index(now, status, schedule, ratio)->Ok_0;
    if now >= start && end > start {
        if once.total_weight != 0 {
            assert(decimal_ratio(0, once.total_weight as int) == 0);
        }
    }
}

/// While the pool ratio is at most one, no more than the scheduled amount is
/// ever recorded as distributed.
pub proof fn lemma_distributed_within_schedule(
    now: u64,
    status: DistributionStatus,
    schedule: Schedule,
    ratio: u128,
)
    requires
        ratio <= DECIMAL_FRACTIONAL,
        status.total_distributed <= schedule.amount,
        spec_update_reward_index(now, status, schedule, ratio) is Ok,
    ensures
        spec_update_reward_index(now, status, schedule, ratio)->Ok_0.total_distributed
            <= schedule.amount,
{
    let (start, end, amount) = (schedule.start, schedule.end, schedule.amount);
    if now >= start && end > start {
        lemma_released_bounded(now, start, end, amount);
        let r = released(now, start, end, amount);
        assert(decimal_mul(r, ratio as int) <= r) by (nonlinear_arith)
            requires
                0 <= r,
                0 <= ratio <= DECIMAL_FRACTIONAL,
                DECIMAL_FRACTIONAL > 0,
                decimal_mul(r, ratio as int) == r * ratio / (DECIMAL_FRACTIONAL as int),
        ;
    }
}


/// `ri` with the rewards earned since its indexes were last set: the bond times
/// the rise of the base index plus the boost weight times the rise of the boost
/// index; then both indexes are moved to the pools' current ones.
pub open spec fn spec_pull_pending_rewards(
    base: DistributionStatus,
    boost: DistributionStatus,
    bond_amount: u128,
    ri: RewardInfo,
) -> Result<RewardInfo, ContractError> {
    let base_now = decimal_mul(bond_amount as int, base.reward_index as int);
    let base_then = decimal_mul(bond_amount as int, ri.base_index as int);
    let boost_now = decimal_mul(ri.boost_weight as int, boost.reward_index as int);
    let boost_then = decimal_mul(ri.boost_weight as int, ri.boost_index as int);
    if base_now > u128::MAX || base_then > u128::MAX {
        Err(ContractError::Aborted)
    } else if base_now < base_then {
        Err(ContractError::Overflow)
    } else if boost_now > u128::MAX || boost_then > u128::MAX {
        Err(ContractError::Aborted)
    } else if boost_now < boost_then {
        Err(ContractError::Overflow)
    } else {
        let earned = (base_now - base_then) + (boost_now - boost_then);
        if earned > u128::MAX || ri.pending_reward + earned > u128::MAX {
            Err(ContractError::Aborted)
        } else {
            Ok(
                RewardInfo {
                    base_index: base.reward_index,
                    boost_index: boost.reward_index,
                    pending_reward: (ri.pending_reward + earned) as u128,
                    ..ri
                },
            )
        }
    }
}

/// The record a staker without one starts from: indexes at the pools' current
/// values and nothing else.
pub open spec fn fresh_reward_info(base: DistributionStatus, boost: DistributionStatus) -> RewardInfo {
    RewardInfo {
        base_index: base.reward_index,
        boost_index: boost.reward_index,
        active_boost: 0,
        boost_weight: 0,
        pending_reward: 0,
    }
}

/// The stored record, or a fresh one where there is none.
pub open spec fn reward_info_or_fresh(
    ri: Option<RewardInfo>,
    base: DistributionStatus,
    boost: DistributionStatus,
) -> RewardInfo {
    match ri {
        Some(r) => r,
        None => fresh_reward_info(base, boost),
    }
}

/// Accrues a staker's rewards from the current pool indexes (see
/// `spec_pull_pending_rewards`), starting from a fresh record where the staker
/// has none.
pub fn _pull_pending_rewards(
    base: &DistributionStatus,
    boost: &DistributionStatus,
    bond_amount: u128,
    reward_info: Option<RewardInfo>,
) -> (r: Result<RewardInfo, ContractError>)
    ensures
        r == spec_pull_pending_rewards(
            *base,
            *boost,
            bond_amount,
            reward_info_or_fresh(reward_info, *base, *boost),
        ),
{
    let ri = match reward_info {
        Some(r) => r,
        None => RewardInfo {
            base_index: base.reward_index,
            boost_index: boost.reward_index,
            active_boost: 0,
            boost_weight: 0,
            pending_reward: 0,
        },
    };
    let base_now = match mul_floor(bond_amount, base.reward_index) {
        Some(v) => v,
        None => return Err(ContractError::Aborted),
    };
    let base_then = match mul_floor(bond_amount, ri.base_index) {
        Some(v) => v,
        None => return Err(ContractError::Aborted),
    };
    if base_now < base_then {
        return Err(ContractError::Overflow);
    }
    let boost_now = match mul_floor(ri.boost_weight, boost.reward_index) {
        Some(v) => v,
        None => return Err(ContractError::Aborted),
    };
    let boost_then = match mul_floor(ri.boost_weight, ri.boost_index) {
        Some(v) => v,
        None => return Err(ContractError::Aborted),
    };
    if boost_now < boost_then {
        return Err(ContractError::Overflow);
    }
    let earned = match (base_now - base_then).checked_add(boost_now - boost_then) {
        Some(v) => v,
        None => return Err(ContractError::Aborted),
    };
    let pending = match ri.pending_reward.checked_add(earned) {
        Some(v) => v,
        None => return Err(ContractError::Aborted),
    };
    Ok(
        RewardInfo {
            base_index: base.reward_index,
            boost_index: boost.reward_index,
            pending_reward: pending,
            ..ri
        },
    )
}

/// Accruing twice without a change of the pool indexes adds nothing the second
/// time.
pub proof fn lemma_pull_pending_rewards_idempotent(
    base: DistributionStatus,
    boost: DistributionStatus,
    bond_amount: u128,
    ri: RewardInfo,
)
    requires
        spec_pull_pending_rewards(base, boost, bond_amount, ri) is Ok,
    ensures
        spec_pull_pending_rewards(
            base,
            boost,
            bond_amount,
            spec_pull_pending_rewards(base, boost, bond_amount, ri)->Ok_0,
        ) == spec_pull_pending_rewards(base, boost, bond_amount, ri),
{
}

/// The integer square root of `n`: the `r >= 0` with `r * r <= n < (r + 1) * (r + 1)`.
pub open spec fn isqrt(n: int) -> int {
    choose|r: int| #[trigger] is_isqrt(r, n)
}

/// `r` is the integer square root of `n`.
pub open spec fn is_isqrt(r: int, n: int) -> bool {
    0 <= r && r * r <= n && n < (r + 1) * (r + 1)
}

proof fn lemma_isqrt_exists(n: int)
    requires
        n >= 0,
    ensures
        is_isqrt(isqrt(n), n),
    decreases n,
{
    if n == 0 {
        assert(is_isqrt(0, 0));
    } else {
        lemma_isqrt_exists(n - 1);
        let r = isqrt(n - 1);
        if (r + 1) * (r + 1) <= n {
            assert(is_isqrt(r + 1, n)) by (nonlinear_arith)
                requires
                    0 <= r,
                    n - 1 < (r + 1) * (r + 1),
                    (r + 1) * (r + 1) <= n,
            ;
        } else {
            assert(is_isqrt(r, n));
        }
    }
}

proof fn lemma_isqrt_unique(r: int, n: int)
    requires
        0 <= r,
        r * r <= n,
        n < (r + 1) * (r + 1),
    ensures
        isqrt(n) == r,
{
    assert(is_isqrt(r, n));
    let s = isqrt(n);
    assert(is_isqrt(s, n));
    if s < r {
        assert((s + 1) * (s + 1) <= r * r) by (nonlinear_arith)
            requires
                0 <= s < r,
        ;
    } else if r < s {
        assert((r + 1) * (r + 1) <= s * s) by (nonlinear_arith)
            requires
                0 <= r < s,
        ;
    }
}

/// The boost pool and the staker's record after the staker's boost weight is
/// reset to `isqrt(bond * boost)`: the pool's total weight trades the old
/// weight for the new one, and the record takes the new weight and
/// `boost_amount` as its active boost.
pub open spec fn spec_update_boost_weight(
    boost: DistributionStatus,
    ri: RewardInfo,
    bond_amount: u128,
    boost_amount: u128,
) -> Result<(DistributionStatus, RewardInfo), ContractError> {
    let product = bond_amount * boost_amount;
    let weight = isqrt(product);
    let total = boost.total_weight - ri.boost_weight + weight;
    if product > u128::MAX || boost.total_weight < ri.boost_weight || total > u128::MAX {
        Err(ContractError::Aborted)
    } else {
        let pool = DistributionStatus { total_weight: total as u128, ..boost };
        Ok((pool, RewardInfo { boost_weight: weight as u128, active_boost: boost_amount, ..ri }))
    }
}

/// Recomputes a staker's boost weight from the bond and the boost amount the
/// boost contract reports (see `spec_update_boost_weight`).
pub fn update_boost_weight(
    boost: &DistributionStatus,
    ri: RewardInfo,
    bond_amount: u128,
    boost_amount: u128,
) -> (r: Result<(DistributionStatus, RewardInfo), ContractError>)
    ensures
        r == spec_update_boost_weight(*boost, ri, bond_amount, boost_amount),
{
    let product = match bond_amount.checked_mul(boost_amount) {
        Some(v) => v,
        None => return Err(ContractError::Aborted),
    };
    let weight = integer_sqrt(product);
    proof {
        lemma_isqrt_unique(weight as int, product as int);
    }
    if boost.total_weight < ri.boost_weight {
        return Err(ContractError::Aborted);
    }
    let total = match (boost.total_weight - ri.boost_weight).checked_add(weight) {
        Some(v) => v,
        None => return Err(ContractError::Aborted),
    };
    let pool = DistributionStatus { total_weight: total, ..*boost };
    Ok((pool, RewardInfo { boost_weight: weight, active_boost: boost_amount, ..ri }))
}


/// An asset the contract can hold: a native coin by denomination or a cw20
/// token by contract address.
#[derive(Clone, Debug, PartialEq, Eq)]
pub enum AssetInfo {
    Native(String),
    Cw20(String),
}

/// How a staker takes vested rewards.
#[derive(Clone, Copy, Debug, PartialEq, Eq)]
pub enum ClaimType {
    /// As PRISM.
    Prism,
    /// As xPRISM minted by governance.
    Xprism,
    /// As xPRISM bonded with the boost contract.
    Amps,
}

/// An outgoing message of the launch pool.
#[derive(Clone, Debug, PartialEq, Eq)]
pub enum Action {
    /// Send `amount` yLuna to the yLuna staking contract, bonding it there.
    StakeYluna { amount: u128 },
    /// Unbond `amount` yLuna from the yLuna staking contract.
    UnstakeYluna { amount: u128 },
    /// Transfer `amount` of `asset` to `recipient`.
    Transfer { asset: AssetInfo, recipient: String, amount: u128 },
    /// Send `amount` PRISM to governance, minting xPRISM for `receiver`.
    MintXprism { amount: u128, receiver: String },
    /// Call this contract's hook that bonds newly minted xPRISM for `receiver`.
    BondWithBoostContractHook { receiver: String, prev_xprism_balance: u128 },
    /// Send `amount` xPRISM to the boost contract, bonding it for `user`.
    BondWithBoost { amount: u128, user: String },
    /// Claim the rewards of the yLuna staking contract.
    ClaimStakingRewards,
    /// Call this contract's hook that forwards what the claim brought in.
    AdminSendWithdrawnRewards { original_balances: Vec<(AssetInfo, u128)> },
}

/// A copy of an asset description.
pub fn copy_asset_info(a: &AssetInfo) -> (r: AssetInfo)
    ensures
        r == *a,
{
    match a {
        AssetInfo::Native(d) => AssetInfo::Native(d.clone()),
        AssetInfo::Cw20(c) => AssetInfo::Cw20(c.clone()),
    }
}

/// The launch pool's configuration. The `distribution_schedule` releases the
/// rewards of both pools; `base_pool_ratio`, a decimal in atomic units, is the
/// base pool's share and the rest goes to the boost pool.
#[derive(Clone, Debug, PartialEq, Eq)]
pub struct Config {
    pub owner: String,
    pub operator: String,
    pub prism_token: String,
    pub xprism_token: String,
    pub gov: String,
    pub yluna_staking: String,
    pub yluna_token: String,
    pub vesting_period: u64,
    pub boost_contract: String,
    pub distribution_schedule: Schedule,
    pub base_pool_ratio: u128,
    pub min_bond_amount: u128,
}

impl Config {
    /// A copy of the configuration.
    pub fn copy(&self) -> (r: Config)
        ensures
            r == *self,
    {
        Config {
            owner: self.owner.clone(),
            operator: self.operator.clone(),
            prism_token: self.prism_token.clone(),
            xprism_token: self.xprism_token.clone(),
            gov: self.gov.clone(),
            yluna_staking: self.yluna_staking.clone(),
            yluna_token: self.yluna_token.clone(),
            vesting_period: self.vesting_period,
            boost_contract: self.boost_contract.clone(),
            distribution_schedule: self.distribution_schedule,
            base_pool_ratio: self.base_pool_ratio,
            min_bond_amount: self.min_bond_amount,
        }
    }
}

/// The two reward pools.
#[derive(Clone, Copy, Debug, PartialEq, Eq)]
pub struct Pools {
    pub base: DistributionStatus,
    pub boost: DistributionStatus,
}

/// What an operation leaves of a staker and the pools. `bond_amount` is the
/// bond record to store (`None`: there is none); `reward_info` likewise.
#[derive(Clone, Copy, Debug, PartialEq, Eq)]
pub struct StakerUpdate {
    pub pools: Pools,
    pub bond_amount: Option<u128>,
    pub reward_info: Option<RewardInfo>,
}

/// Checks an instantiation and returns the configuration to store; both pools
/// start empty (`DistributionStatus::new`).
pub fn instantiate(
    owner: String,
    operator: String,
    prism_token: String,
    xprism_token: String,
    gov: String,
    yluna_staking: String,
    yluna_token: String,
    vesting_period: u64,
    boost_contract: String,
    distribution_schedule: Schedule,
    base_pool_ratio: u128,
    min_bond_amount: u128,
) -> (r: Result<Config, ContractError>)
    ensures
        distribution_schedule.start > distribution_schedule.end ==> r
            == Err::<Config, ContractError>(ContractError::InvalidDistributionSchedule),
        distribution_schedule.start <= distribution_schedule.end && base_pool_ratio > DECIMAL_FRACTIONAL
            ==> r == Err::<Config, ContractError>(ContractError::InvalidBasePoolRatio),
        distribution_schedule.start <= distribution_schedule.end && base_pool_ratio <= DECIMAL_FRACTIONAL
            ==> r == Ok::<Config, ContractError>(
            Config {
                owner,
                operator,
                prism_token,
                xprism_token,
                gov,
                yluna_staking,
                yluna_token,
                vesting_period,
                boost_contract,
                distribution_schedule,
                base_pool_ratio,
                min_bond_amount,
            },
        ),
{
    if distribution_schedule.start > distribution_schedule.end {
        return Err(ContractError::InvalidDistributionSchedule);
    }
    if base_pool_ratio > DECIMAL_FRACTIONAL {
        return Err(ContractError::InvalidBasePoolRatio);
    }
    Ok(
        Config {
            owner,
            operator,
            prism_token,
            xprism_token,
            gov,
            yluna_staking,
            yluna_token,
            vesting_period,
            boost_contract,
            distribution_schedule,
            base_pool_ratio,
            min_bond_amount,
        },
    )
}

/// Both pools brought up to date at `now`: the base pool takes
/// `base_pool_ratio` of the schedule, the boost pool the rest.
pub open spec fn spec_update_reward_indexes(
    schedule: Schedule,
    base_pool_ratio: u128,
    pools: Pools,
    now: u64,
) -> Result<Pools, ContractError> {
    match spec_update_reward_index(now, pools.base, schedule, base_pool_ratio) {
        Err(e) => Err(e),
        Ok(base) => if base_pool_ratio > DECIMAL_FRACTIONAL {
            Err(ContractError::Aborted)
        } else {
            match spec_update_reward_index(
                now,
                pools.boost,
                schedule,
                (DECIMAL_FRACTIONAL - base_pool_ratio) as u128,
            ) {
                Err(e) => Err(e),
                Ok(boost) => Ok(Pools { base, boost }),
            }
        },
    }
}

proof fn lemma_update_keeps_weights(schedule: Schedule, ratio: u128, pools: Pools, now: u64)
    requires
        spec_update_reward_indexes(schedule, ratio, pools, now) is Ok,
    ensures
        spec_update_reward_indexes(schedule, ratio, pools, now)->Ok_0.base.total_weight
            == pools.base.total_weight,
        spec_update_reward_indexes(schedule, ratio, pools, now)->Ok_0.boost.total_weight
            == pools.boost.total_weight,
{
}

/// Brings both pools up to date at `now` (see `spec_update_reward_indexes`).
pub fn update_reward_indexes(cfg: &Config, pools: &Pools, now: u64) -> (r: Result<
    Pools,
    ContractError,
>)
    ensures
        r == spec_update_reward_indexes(cfg.distribution_schedule, cfg.base_pool_ratio, *pools, now),
{
    let base = _update_reward_index(now, &pools.base, cfg.distribution_schedule, cfg.base_pool_ratio)?;
    if cfg.base_pool_ratio > DECIMAL_FRACTIONAL {
        return Err(ContractError::Aborted);
    }
    let boost = _update_reward_index(
        now,
        &pools.boost,
        cfg.distribution_schedule,
        DECIMAL_FRACTIONAL - cfg.base_pool_ratio,
    )?;
    Ok(Pools { base, boost })
}

/// A stored bond, zero where there is none.
pub open spec fn bond_or_zero(b: Option<u128>) -> u128 {
    match b {
        Some(v) => v,
        None => 0,
    }
}

/// The pools and staker after bonding `amount` at `now`: rewards are accrued
/// first, then the bond and the base pool's weight grow by `amount` and the
/// boost weight is recomputed with `boost_amount`.
pub open spec fn spec_bond(
    cfg: Config,
    pools: Pools,
    bond_amount: Option<u128>,
    reward_info: Option<RewardInfo>,
    now: u64,
    amount: u128,
    boost_amount: u128,
) -> Result<StakerUpdate, ContractError> {
    if amount < cfg.min_bond_amount {
        Err(ContractError::BondTooLow { min_bond_amount: cfg.min_bond_amount })
    } else {
        match spec_update_reward_indexes(cfg.distribution_schedule, cfg.base_pool_ratio, pools, now) {
            Err(e) => Err(e),
            Ok(p) => {
                let current = bond_or_zero(bond_amount);
                match spec_pull_pending_rewards(
                    p.base,
                    p.boost,
                    current,
                    reward_info_or_fresh(reward_info, p.base, p.boost),
                ) {
                    Err(e) => Err(e),
                    Ok(ri) => {
                        if current + amount > u128::MAX || p.base.total_weight + amount > u128::MAX {
                            Err(ContractError::Aborted)
                        } else {
                            let new_bond = (current + amount) as u128;
                            let base = DistributionStatus {
                                total_weight: (p.base.total_weight + amount) as u128,
                                ..p.base
                            };
                            match spec_update_boost_weight(p.boost, ri, new_bond, boost_amount) {
                                Err(e) => Err(e),
                                Ok((boost, rec)) => Ok(
                                    StakerUpdate {
                                        pools: Pools { base, boost },
                                        bond_amount: Some(new_bond),
                                        reward_info: Some(rec),
                                    },
                                ),
                            }
                        }
                    },
                }
            },
        }
    }
}

/// Bonds `amount` yLuna for a staker (see `spec_bond`). `boost_amount` is the
/// staker's boost as the boost contract reports it. On success the yLuna is
/// staked with the yLuna staking contract.
pub fn bond(
    cfg: &Config,
    pools: &Pools,
    bond_amount: Option<u128>,
    reward_info: Option<RewardInfo>,
    now: u64,
    amount: u128,
    boost_amount: u128,
) -> (r: Result<(StakerUpdate, Vec<Action>), ContractError>)
    ensures
        r is Ok <==> spec_bond(*cfg, *pools, bond_amount, reward_info, now, amount, boost_amount) is Ok,
        r is Err ==> r->Err_0 == spec_bond(
            *cfg,
            *pools,
            bond_amount,
            reward_info,
            now,
            amount,
            boost_amount,
        )->Err_0,
        r matches Ok((u, actions)) ==> u == spec_bond(
            *cfg,
            *pools,
            bond_amount,
            reward_info,
            now,
            amount,
            boost_amount,
        )->Ok_0 && actions@ == seq![Action::StakeYluna { amount }],
{
    if amount < cfg.min_bond_amount {
        return Err(ContractError::BondTooLow { min_bond_amount: cfg.min_bond_amount });
    }
    let p = update_reward_indexes(cfg, pools, now)?;
    let current = match bond_amount {
        Some(v) => v,
        None => 0,
    };
    let ri = _pull_pending_rewards(&p.base, &p.boost, current, reward_info)?;
    let new_bond = match current.checked_add(amount) {
        Some(v) => v,
        None => return Err(ContractError::Aborted),
    };
    let weight = match p.base.total_weight.checked_add(amount) {
        Some(v) => v,
        None => return Err(ContractError::Aborted),
    };
    let base = DistributionStatus { total_weight: weight, ..p.base };
    let (boost, rec) = update_boost_weight(&p.boost, ri, new_bond, boost_amount)?;
    let mut actions = Vec::new();
    actions.push(Action::StakeYluna { amount });
    Ok((StakerUpdate { pools: Pools { base, boost }, bond_amount: Some(new_bond), reward_info: Some(rec) }, actions))
}


/// The pools and staker after unbonding `amount` (everything when `None`) at
/// `now`: rewards are accrued first, the bond and the base pool's weight shrink
/// by the unbonded amount (the bond record stays, at zero when everything is
/// unbonded), and the boost weight is recomputed with `boost_amount`. Also returns the amount
/// unbonded.
pub open spec fn spec_unbond(
    cfg: Config,
    pools: Pools,
    bond_amount: Option<u128>,
    reward_info: Option<RewardInfo>,
    now: u64,
    amount: Option<u128>,
    boost_amount: u128,
) -> Result<(StakerUpdate, u128), ContractError> {
    match spec_update_reward_indexes(cfg.distribution_schedule, cfg.base_pool_ratio, pools, now) {
        Err(e) => Err(e),
        Ok(p) => match spec_pull_pending_rewards(
            p.base,
            p.boost,
            bond_or_zero(bond_amount),
            reward_info_or_fresh(reward_info, p.base, p.boost),
        ) {
            Err(e) => Err(e),
            Ok(ri) => match bond_amount {
                None => Err(ContractError::NoTokensBonded),
                Some(current) => {
                    if amount is Some && amount->Some_0 > current {
                        Err(ContractError::UnbondTooLarge)
                    } else {
                        let unbonded = match amount {
                            Some(a) => a,
                            None => current,
                        };
                        let remaining = (current - unbonded) as u128;
                        if p.base.total_weight < unbonded {
                            Err(ContractError::Aborted)
                        } else {
                            let base = DistributionStatus {
                                total_weight: (p.base.total_weight - unbonded) as u128,
                                ..p.base
                            };
                            match spec_update_boost_weight(p.boost, ri, remaining, boost_amount) {
                                Err(e) => Err(e),
                                Ok((boost, rec)) => Ok(
                                    (
                                        StakerUpdate {
                                            pools: Pools { base, boost },
                                            bond_amount: Some(remaining),
                                            reward_info: Some(rec),
                                        },
                                        unbonded,
                                    ),
                                ),
                            }
                        }
                    }
                },
            },
        },
    }
}

/// Unbonds yLuna for `sender` (see `spec_unbond`). On success the yLuna is
/// unstaked from the staking contract and transferred to `sender`.
pub fn unbond(
    cfg: &Config,
    pools: &Pools,
    bond_amount: Option<u128>,
    reward_info: Option<RewardInfo>,
    now: u64,
    sender: String,
    amount: Option<u128>,
    boost_amount: u128,
) -> (r: Result<(StakerUpdate, Vec<Action>), ContractError>)
    ensures
        r is Ok <==> spec_unbond(*cfg, *pools, bond_amount, reward_info, now, amount, boost_amount) is Ok,
        r is Err ==> r->Err_0 == spec_unbond(
            *cfg,
            *pools,
            bond_amount,
            reward_info,
            now,
            amount,
            boost_amount,
        )->Err_0,
        r matches Ok((u, actions)) ==> {
            let (su, unbonded) = spec_unbond(
                *cfg,
                *pools,
                bond_amount,
                reward_info,
                now,
                amount,
                boost_amount,
            )->Ok_0;
            &&& u == su
            &&& actions@ == seq![
                Action::UnstakeYluna { amount: unbonded },
                Action::Transfer {
                    asset: AssetInfo::Cw20(cfg.yluna_token),
                    recipient: sender,
                    amount: unbonded,
                },
            ]
        },
{
    let p = update_reward_indexes(cfg, pools, now)?;
    let ri = _pull_pending_rewards(
        &p.base,
        &p.boost,
        match bond_amount {
            Some(v) => v,
            None => 0,
        },
        reward_info,
    )?;
    let current = match bond_amount {
        Some(v) => v,
        None => return Err(ContractError::NoTokensBonded),
    };
    let unbonded = match amount {
        Some(a) => {
            if a > current {
                return Err(ContractError::UnbondTooLarge);
            }
            a
        },
        None => current,
    };
    let remaining = current - unbonded;
    if p.base.total_weight < unbonded {
        return Err(ContractError::Aborted);
    }
    let base = DistributionStatus { total_weight: p.base.total_weight - unbonded, ..p.base };
    let (boost, rec) = update_boost_weight(&p.boost, ri, remaining, boost_amount)?;
    let mut actions = Vec::new();
    actions.push(Action::UnstakeYluna { amount: unbonded });
    actions.push(
        Action::Transfer {
            asset: AssetInfo::Cw20(cfg.yluna_token.clone()),
            recipient: sender,
            amount: unbonded,
        },
    );
    let update = StakerUpdate {
        pools: Pools { base, boost },
        bond_amount: Some(remaining),
        reward_info: Some(rec),
    };
    Ok((update, actions))
}

/// The pools and staker after the staker's boost weight is refreshed at `now`
/// with `boost_amount`; the bond is unchanged. Also returns the bond.
pub open spec fn spec_refresh_boost(
    cfg: Config,
    pools: Pools,
    bond_amount: Option<u128>,
    reward_info: Option<RewardInfo>,
    now: u64,
    boost_amount: u128,
) -> Result<(StakerUpdate, u128), ContractError> {
    match spec_update_reward_indexes(cfg.distribution_schedule, cfg.base_pool_ratio, pools, now) {
        Err(e) => Err(e),
        Ok(p) => match spec_pull_pending_rewards(
            p.base,
            p.boost,
            bond_or_zero(bond_amount),
            reward_info_or_fresh(reward_info, p.base, p.boost),
        ) {
            Err(e) => Err(e),
            Ok(ri) => match spec_update_boost_weight(
                p.boost,
                ri,
                bond_or_zero(bond_amount),
                boost_amount,
            ) {
                Err(e) => Err(e),
                Ok((boost, rec)) => Ok(
                    (
                        StakerUpdate {
                            pools: Pools { base: p.base, boost },
                            bond_amount,
                            reward_info: Some(rec),
                        },
                        bond_or_zero(bond_amount),
                    ),
                ),
            },
        },
    }
}

/// Refreshes a staker's boost weight (see `spec_refresh_boost`).
pub fn refresh_boost(
    cfg: &Config,
    pools: &Pools,
    bond_amount: Option<u128>,
    reward_info: Option<RewardInfo>,
    now: u64,
    boost_amount: u128,
) -> (r: Result<(StakerUpdate, u128), ContractError>)
    ensures
        r == spec_refresh_boost(*cfg, *pools, bond_amount, reward_info, now, boost_amount),
{
    let p = update_reward_indexes(cfg, pools, now)?;
    let current = match bond_amount {
        Some(v) => v,
        None => 0,
    };
    let ri = _pull_pending_rewards(&p.base, &p.boost, current, reward_info)?;
    let (boost, rec) = update_boost_weight(&p.boost, ri, current, boost_amount)?;
    Ok((StakerUpdate { pools: Pools { base: p.base, boost }, bond_amount, reward_info: Some(rec) }, current))
}

/// A staker refreshes their own boost weight, whatever they have bonded.
/// Returns the update, the bond and the boost amount.
pub fn activate_boost(
    cfg: &Config,
    pools: &Pools,
    bond_amount: Option<u128>,
    reward_info: Option<RewardInfo>,
    now: u64,
    boost_amount: u128,
) -> (r: Result<(StakerUpdate, u128, u128), ContractError>)
    ensures
        match spec_refresh_boost(*cfg, *pools, bond_amount, reward_info, now, boost_amount) {
            Err(e) => r == Err::<(StakerUpdate, u128, u128), ContractError>(e),
            Ok((u, b)) => r == Ok::<(StakerUpdate, u128, u128), ContractError>((u, b, boost_amount)),
        },
{
    let (u, current) = refresh_boost(cfg, pools, bond_amount, reward_info, now, boost_amount)?;
    Ok((u, current, boost_amount))
}

/// The boost contract refreshes a staker's boost weight (after their boost
/// changed); refused for any other sender. Returns the update, the bond and the
/// boost amount.
pub fn privileged_refresh_boost(
    cfg: &Config,
    pools: &Pools,
    sender: &String,
    bond_amount: Option<u128>,
    reward_info: Option<RewardInfo>,
    now: u64,
    boost_amount: u128,
) -> (r: Result<(StakerUpdate, u128, u128), ContractError>)
    ensures
        sender@ != cfg.boost_contract@ ==> r == Err::<(StakerUpdate, u128, u128), ContractError>(
            ContractError::Unauthorized,
        ),
        sender@ == cfg.boost_contract@ ==> match spec_refresh_boost(
            *cfg,
            *pools,
            bond_amount,
            reward_info,
            now,
            boost_amount,
        ) {
            Err(e) => r == Err::<(StakerUpdate, u128, u128), ContractError>(e),
            Ok((u, b)) => r == Ok::<(StakerUpdate, u128, u128), ContractError>(
                (u, b, boost_amount),
            ),
        },
{
    if *sender != cfg.boost_contract {
        return Err(ContractError::Unauthorized);
    }
    let (u, current) = refresh_boost(cfg, pools, bond_amount, reward_info, now, boost_amount)?;
    Ok((u, current, boost_amount))
}


/// The total amount of a list of scheduled vests `(end_time, amount)`.
pub open spec fn sum_vests(v: Seq<(u64, u128)>) -> int
    decreases v.len(),
{
    if v.len() == 0 {
        0
    } else {
        sum_vests(v.drop_last()) + v.last().1
    }
}

/// The number of leading vests released at `now`, counting from index `i`:
/// counting stops at the end of the list, at `MAX_UPDATE_VEST_PER_TX`, or at the
/// first vest that ends after `now`.
pub open spec fn count_released_from(v: Seq<(u64, u128)>, now: u64, i: int) -> int
    decreases v.len() - i,
{
    if i < 0 || i >= v.len() || i >= MAX_UPDATE_VEST_PER_TX || now < v[i].0 {
        i
    } else {
        count_released_from(v, now, i + 1)
    }
}

/// The number of leading vests one update releases at `now`.
pub open spec fn released_count(v: Seq<(u64, u128)>, now: u64) -> int {
    count_released_from(v, now, 0)
}

/// A stored amount, zero where there is none.
pub open spec fn amount_or_zero(a: Option<u128>) -> int {
    match a {
        Some(v) => v as int,
        None => 0,
    }
}

proof fn lemma_sum_vests_step(v: Seq<(u64, u128)>, i: int)
    requires
        0 <= i < v.len(),
    ensures
        sum_vests(v.take(i + 1)) == sum_vests(v.take(i)) + v[i].1,
{
    assert(v.take(i + 1).drop_last() =~= v.take(i));
}

proof fn lemma_sum_vests_nonneg(v: Seq<(u64, u128)>)
    ensures
        sum_vests(v) >= 0,
    decreases v.len(),
{
    if v.len() > 0 {
        lemma_sum_vests_nonneg(v.drop_last());
    }
}

proof fn lemma_count_released_bounds(v: Seq<(u64, u128)>, now: u64, i: int)
    requires
        0 <= i <= v.len(),
        i <= MAX_UPDATE_VEST_PER_TX,
    ensures
        i <= count_released_from(v, now, i) <= v.len(),
        count_released_from(v, now, i) <= MAX_UPDATE_VEST_PER_TX,
    decreases v.len() - i,
{
    if !(i >= v.len() || i >= MAX_UPDATE_VEST_PER_TX || now < v[i].0) {
        lemma_count_released_bounds(v, now, i + 1);
    }
}

/// Whether the vests `(end_time, amount)` are in ascending end time, the order
/// of their storage keys.
pub open spec fn vests_in_end_order(vests: Seq<(u64, u128)>) -> bool {
    forall|i: int, j: int| 0 <= i <= j < vests.len() ==> vests[i].0 <= vests[j].0
}

/// Releases the vests that have ended at `now` into the withdrawable amount:
/// returns the new withdrawable amount (the stored one, zero where there is
/// none, plus the released vests) and how many leading vests were released.
/// The vests are `(end_time, amount)` in the order storage lists them
/// (ascending end time); the released ones are a prefix of at most
/// `MAX_UPDATE_VEST_PER_TX` entries, each of which has ended, followed by the
/// end of the list, the cap, or a vest that has not ended; below the cap, no
/// vest that stays has ended.
pub fn update_vest(now: u64, pending_withdraw: Option<u128>, vests: &Vec<(u64, u128)>) -> (r: Result<
    (u128, usize),
    ContractError,
>)
    ensures
        r is Ok <==> amount_or_zero(pending_withdraw) + sum_vests(
            vests@.take(released_count(vests@, now)),
        ) <= u128::MAX,
        r is Err ==> r->Err_0 == ContractError::Aborted,
        r matches Ok((p, k)) ==> {
            &&& k == released_count(vests@, now)
            &&& p == amount_or_zero(pending_withdraw) + sum_vests(vests@.take(k as int))
            &&& k <= MAX_UPDATE_VEST_PER_TX
            &&& forall|j: int| 0 <= j < k ==> (#[trigger] vests@[j]).0 <= now
            &&& k == vests@.len() || k == MAX_UPDATE_VEST_PER_TX || now < vests@[k as int].0
            &&& vests_in_end_order(vests@) && k < MAX_UPDATE_VEST_PER_TX ==> forall|j: int|
                k <= j < vests@.len() ==> now < (#[trigger] vests@[j]).0
        },
{
    let mut acc: u128 = match pending_withdraw {
        Some(v) => v,
        None => 0,
    };
    let mut i: usize = 0;
    let mut overflowed = false;
    let n = vests.len();
    let cap: usize = 50;
    proof {
        assert(vests@.take(0) =~= Seq::<(u64, u128)>::empty());
        lemma_count_released_bounds(vests@, now, 0);
    }
    while i < n && i < cap && vests[i].0 <= now
        invariant
            n == vests@.len(),
            cap == MAX_UPDATE_VEST_PER_TX,
            0 <= i <= n,
            i <= cap,
            count_released_from(vests@, now, i as int) == released_count(vests@, now),
            forall|j: int| 0 <= j < i ==> (#[trigger] vests@[j]).0 <= now,
            !overflowed ==> acc == amount_or_zero(pending_withdraw) + sum_vests(
                vests@.take(i as int),
            ),
            overflowed ==> amount_or_zero(pending_withdraw) + sum_vests(vests@.take(i as int))
                > u128::MAX,
        decreases n - i,
    {
        proof {
            lemma_sum_vests_step(vests@, i as int);
        }
        if !overflowed {
            match acc.checked_add(vests[i].1) {
                Some(v) => {
                    acc = v;
                },
                None => {
                    overflowed = true;
                },
            }
        }
        i = i + 1;
    }
    proof {
        lemma_count_released_bounds(vests@, now, 0);
        assert(count_released_from(vests@, now, i as int) == i);
        if i < n && i < cap {
            assert(now < vests@[i as int].0);
        }
    }
    if overflowed {
        return Err(ContractError::Aborted);
    }
    Ok((acc, i))
}

/// Releasing vests moves value without creating or losing any: the new
/// withdrawable amount plus the vests left equals the old withdrawable amount
/// plus all vests.
pub proof fn lemma_update_vest_conserves(
    v: Seq<(u64, u128)>,
    now: u64,
    pending_withdraw: Option<u128>,
)
    ensures
        ({
            let k = released_count(v, now);
            (amount_or_zero(pending_withdraw) + sum_vests(v.take(k))) + sum_vests(v.skip(k))
                == amount_or_zero(pending_withdraw) + sum_vests(v)
        }),
{
    let k = released_count(v, now);
    lemma_count_released_bounds(v, now, 0);
    lemma_sum_vests_split(v, k);
}

proof fn lemma_sum_vests_split(v: Seq<(u64, u128)>, k: int)
    requires
        0 <= k <= v.len(),
    ensures
        sum_vests(v.take(k)) + sum_vests(v.skip(k)) == sum_vests(v),
    decreases v.len() - k,
{
    if k == v.len() {
        assert(v.take(k) =~= v);
        assert(v.skip(k) =~= Seq::<(u64, u128)>::empty());
    } else {
        lemma_sum_vests_split(v, k + 1);
        lemma_sum_vests_step(v, k);
        lemma_sum_vests_first(v.skip(k));
        assert(v.skip(k).drop_first() =~= v.skip(k + 1));
    }
}

proof fn lemma_sum_vests_first(v: Seq<(u64, u128)>)
    requires
        v.len() > 0,
    ensures
        sum_vests(v) == v[0].1 + sum_vests(v.drop_first()),
    decreases v.len(),
{
    if v.len() == 1 {
        assert(v.drop_last() =~= Seq::<(u64, u128)>::empty());
        assert(v.drop_first() =~= Seq::<(u64, u128)>::empty());
    } else {
        lemma_sum_vests_first(v.drop_last());
        assert(v.drop_last().drop_first() =~= v.drop_first().drop_last());
    }
}

/// The amount scheduled at `end_time`: the first vest with that end time, zero
/// where there is none.
pub open spec fn vest_at(v: Seq<(u64, u128)>, end_time: u64) -> int
    decreases v.len(),
{
    if v.len() == 0 {
        0
    } else if v[0].0 == end_time {
        v[0].1 as int
    } else {
        vest_at(v.drop_first(), end_time)
    }
}

/// Looks up the amount scheduled at `end_time` among the vests from index
/// `from` on.
fn vest_amount_at(vests: &Vec<(u64, u128)>, from: usize, end_time: u64) -> (r: u128)
    requires
        from <= vests@.len(),
    ensures
        r == vest_at(vests@.skip(from as int), end_time),
{
    let mut j = from;
    while j < vests.len()
        invariant
            from <= j <= vests@.len(),
            vest_at(vests@.skip(from as int), end_time) == vest_at(vests@.skip(j as int), end_time),
        decreases vests@.len() - j,
    {
        assert(vests@.skip(j as int).drop_first() =~= vests@.skip(j + 1));
        if vests[j].0 == end_time {
            return vests[j].1;
        }
        j = j + 1;
    }
    assert(vests@.skip(j as int) =~= Seq::<(u64, u128)>::empty());
    0
}

/// A staker's vesting records as storage holds them.
#[derive(Clone, Debug, PartialEq, Eq)]
pub struct StakerVesting {
    pub bond_amount: Option<u128>,
    pub reward_info: Option<RewardInfo>,
    pub pending_withdraw: Option<u128>,
    pub vests: Vec<(u64, u128)>,
}

/// What a withdrawal leaves of a staker's records: the reward record (its
/// pending reward now zero), the withdrawable amount, how many leading vests
/// were released (to be removed), the vest to store (`(end_time, amount)`, when
/// anything was withdrawn) and the amount withdrawn.
#[derive(Clone, Copy, Debug, PartialEq, Eq)]
pub struct WithdrawOutcome {
    pub reward_info: RewardInfo,
    pub pending_withdraw: u128,
    pub released: usize,
    pub new_vest: Option<(u64, u128)>,
    pub withdrawn: u128,
}

/// The end time of a vest started at `now`: `now + vesting_period`, rounded
/// down to a whole day.
pub open spec fn vest_end(now: u64, vesting_period: u64) -> int {
    let t = now + vesting_period;
    t - t % (TIME_UNIT as int)
}

/// The day on which rewards withdrawn at `withdraw_time` finish vesting:
/// `withdraw_time + vesting_period`, rounded down to a whole day.
pub fn compute_vested_time(withdraw_time: u64, vesting_period: u64) -> (r: u64)
    requires
        withdraw_time + vesting_period <= u64::MAX,
    ensures
        r == vest_end(withdraw_time, vesting_period),
        r <= withdraw_time + vesting_period < r + TIME_UNIT,
        r % TIME_UNIT == 0,
{
    let t = withdraw_time + vesting_period;
    t - t % TIME_UNIT
}

/// A staker's withdrawal at `now` with the pools already up to date: the
/// accrued rewards are pulled and the whole pending reward starts vesting,
/// added to the vest ending at `vest_end(now, vesting_period)`; ended vests are
/// released first.
pub open spec fn spec_withdraw_single(
    vesting_period: u64,
    pools: Pools,
    staker: StakerVesting,
    now: u64,
) -> Result<WithdrawOutcome, ContractError> {
    match spec_pull_pending_rewards(
        pools.base,
        pools.boost,
        bond_or_zero(staker.bond_amount),
        reward_info_or_fresh(staker.reward_info, pools.base, pools.boost),
    ) {
        Err(e) => Err(e),
        Ok(ri) => {
            let v = staker.vests@;
            let k = released_count(v, now);
            let p = amount_or_zero(staker.pending_withdraw) + sum_vests(v.take(k));
            let w = ri.pending_reward;
            let end = vest_end(now, vesting_period);
            if p > u128::MAX {
                Err(ContractError::Aborted)
            } else if w != 0 && (now + vesting_period > u64::MAX || vest_at(v.skip(k), end as u64)
                + w > u128::MAX) {
                Err(ContractError::Aborted)
            } else {
                Ok(
                    WithdrawOutcome {
                        reward_info: RewardInfo { pending_reward: 0, ..ri },
                        pending_withdraw: p as u128,
                        released: k as usize,
                        new_vest: if w == 0 {
                            None
                        } else {
                            Some((end as u64, (vest_at(v.skip(k), end as u64) + w) as u128))
                        },
                        withdrawn: w,
                    },
                )
            }
        },
    }
}

/// A staker's withdrawal with the pools already up to date (see
/// `spec_withdraw_single`).
pub fn _withdraw_rewards_single(vesting_period: u64, pools: &Pools, staker: &StakerVesting, now: u64) -> (r:
    Result<WithdrawOutcome, ContractError>)
    ensures
        r == spec_withdraw_single(vesting_period, *pools, *staker, now),
{
    let ri = _pull_pending_rewards(&pools.base, &pools.boost, match staker.bond_amount {
        Some(v) => v,
        None => 0,
    }, staker.reward_info)?;
    let (p, k) = update_vest(now, staker.pending_withdraw, &staker.vests)?;
    let w = ri.pending_reward;
    proof {
        lemma_count_released_bounds(staker.vests@, now, 0);
    }
    let new_vest = if w == 0 {
        None
    } else {
        if now.checked_add(vesting_period).is_none() {
            return Err(ContractError::Aborted);
        }
        let end = compute_vested_time(now, vesting_period);
        let orig = vest_amount_at(&staker.vests, k, end);
        match orig.checked_add(w) {
            Some(a) => Some((end, a)),
            None => return Err(ContractError::Aborted),
        }
    };
    Ok(
        WithdrawOutcome {
            reward_info: RewardInfo { pending_reward: 0, ..ri },
            pending_withdraw: p,
            released: k,
            new_vest,
            withdrawn: w,
        },
    )
}

/// A staker withdraws their rewards at `now`: the pools are brought up to date
/// and the staker's withdrawal follows `spec_withdraw_single`.
pub fn withdraw_rewards(cfg: &Config, pools: &Pools, staker: &StakerVesting, now: u64) -> (r: Result<
    (Pools, WithdrawOutcome),
    ContractError,
>)
    ensures
        match spec_update_reward_indexes(cfg.distribution_schedule, cfg.base_pool_ratio, *pools, now) {
            Err(e) => r == Err::<(Pools, WithdrawOutcome), ContractError>(e),
            Ok(p) => match spec_withdraw_single(cfg.vesting_period, p, *staker, now) {
                Err(e) => r == Err::<(Pools, WithdrawOutcome), ContractError>(e),
                Ok(o) => r == Ok::<(Pools, WithdrawOutcome), ContractError>((p, o)),
            },
        },
{
    let p = update_reward_indexes(cfg, pools, now)?;
    let o = _withdraw_rewards_single(cfg.vesting_period, &p, staker, now)?;
    Ok((p, o))
}

/// Whether `addr` comes strictly after `start_after` in byte order; every
/// address does when no start is given.
pub open spec fn after_address(addr: String, start_after: Option<String>) -> bool {
    match start_after {
        None => true,
        Some(s) => lex_le(encode_utf8(s@), encode_utf8(addr@)) && encode_utf8(s@) != encode_utf8(
            addr@,
        ),
    }
}

/// The positions among the first `m` of `addresses` whose address comes after
/// `start_after`, in order.
pub open spec fn positions_after(addresses: Seq<String>, start_after: Option<String>, m: nat) -> Seq<
    int,
>
    decreases m,
{
    if m == 0 {
        Seq::empty()
    } else {
        let prev = positions_after(addresses, start_after, (m - 1) as nat);
        if after_address(addresses[m - 1], start_after) {
            prev.push(m - 1)
        } else {
            prev
        }
    }
}

/// The positions of the stakers a bulk withdrawal takes from `addresses` (the
/// addresses of the reward records, in storage order): the first `limit` of
/// those after `start_after`.
pub open spec fn bulk_positions(addresses: Seq<String>, start_after: Option<String>, limit: u64) -> Seq<
    int,
> {
    at_most(positions_after(addresses, start_after, addresses.len()), limit as nat)
}

/// The last address a batch processed, or the empty string when it processed
/// none.
pub open spec fn bulk_last_address(addresses: Seq<String>, positions: Seq<int>) -> Seq<char> {
    if positions.len() == 0 {
        Seq::empty()
    } else {
        addresses[positions.last()]@
    }
}

/// Picks the batch of a bulk withdrawal: the positions in `addresses` of the
/// first `limit` addresses after `start_after`, and the last address picked
/// (empty when none is).
pub fn bulk_batch(addresses: &Vec<String>, start_after: &Option<String>, limit: u64) -> (r: (
    Vec<usize>,
    String,
))
    ensures
        r.0@.len() == bulk_positions(addresses@, *start_after, limit).len(),
        forall|k: int|
            0 <= k < r.0@.len() ==> r.0@[k] as int == #[trigger] bulk_positions(
                addresses@,
                *start_after,
                limit,
            )[k] && r.0@[k] < addresses@.len(),
        r.1@ == bulk_last_address(addresses@, bulk_positions(addresses@, *start_after, limit)),
{
    let start_bytes: Option<Vec<u8>> = match start_after {
        Some(s) => Some(slice_to_vec(s.as_str().as_bytes())),
        None => None,
    };
    let n = addresses.len();
    let mut out: Vec<usize> = Vec::new();
    let mut m: usize = 0;
    while m < n
        invariant
            n == addresses@.len(),
            0 <= m <= n,
            match *start_after {
                Some(s) => start_bytes matches Some(b) && b@ == encode_utf8(s@),
                None => start_bytes is None,
            },
            out@.len() == at_most(positions_after(addresses@, *start_after, m as nat), limit as nat).len(),
            forall|k: int|
                0 <= k < out@.len() ==> #[trigger] out@[k] as int == at_most(
                    positions_after(addresses@, *start_after, m as nat),
                    limit as nat,
                )[k],
            forall|k: int| 0 <= k < out@.len() ==> #[trigger] out@[k] < m,
        decreases n - m,
    {
        let after = match &start_bytes {
            None => true,
            Some(sb) => !bytes_le(addresses[m].as_str().as_bytes(), sb.as_slice()),
        };
        let ghost prev = positions_after(addresses@, *start_after, m as nat);
        let ghost old_out = out@;
        proof {
            if start_after.is_some() {
                lemma_lex_total(encode_utf8(addresses@[m as int]@), encode_utf8(start_after->0@));
            }
            assert(after == after_address(addresses@[m as int], *start_after));
        }
        if after && (out.len() as u64) < limit {
            out.push(m);
        }
        proof {
            let next = positions_after(addresses@, *start_after, (m + 1) as nat);
            let l = limit as nat;
            if after {
                assert(next == prev.push(m as int));
                if prev.len() >= l {
                    assert(at_most(next, l) =~= at_most(prev, l));
                } else {
                    assert(at_most(prev, l) == prev);
                    assert(at_most(next, l) == next);
                    assert(out@ =~= old_out.push(m));
                }
            } else {
                assert(next == prev);
            }
        }
        m = m + 1;
    }
    assert(out@.len() > 0 ==> out@[out@.len() - 1] < n);
    let last = if out.len() == 0 {
        String::new()
    } else {
        addresses[out[out.len() - 1]].clone()
    };
    (out, last)
}

/// The operator withdraws rewards for a batch of stakers at `now`:
/// `addresses` and `stakers` are the reward records' addresses and records,
/// in storage order; the batch is the first `limit` of them whose address comes
/// after `start_after` (`bulk_positions`). The pools are brought up to date
/// once and each staker's withdrawal in the batch follows
/// `spec_withdraw_single`, in order; the first failure rejects the whole call.
/// Returns the pools, the positions processed, their outcomes and the last
/// address processed (empty when none was), to start the next batch after.
/// Refused for anyone but the operator.
pub fn withdraw_rewards_bulk(
    cfg: &Config,
    pools: &Pools,
    sender: &String,
    addresses: &Vec<String>,
    stakers: &Vec<StakerVesting>,
    limit: u64,
    start_after_address: &Option<String>,
    now: u64,
) -> (r: Result<(Pools, Vec<usize>, Vec<WithdrawOutcome>, String), ContractError>)
    requires
        addresses@.len() == stakers@.len(),
    ensures
        sender@ != cfg.operator@ ==> r == Err::<
            (Pools, Vec<usize>, Vec<WithdrawOutcome>, String),
            ContractError,
        >(ContractError::Unauthorized),
        sender@ == cfg.operator@ ==> match spec_update_reward_indexes(
            cfg.distribution_schedule,
            cfg.base_pool_ratio,
            *pools,
            now,
        ) {
            Err(e) => r == Err::<(Pools, Vec<usize>, Vec<WithdrawOutcome>, String), ContractError>(e),
            Ok(p) => {
                let sel = bulk_positions(addresses@, *start_after_address, limit);
                &&& r is Ok <==> forall|k: int|
                    0 <= k < sel.len() ==> #[trigger] spec_withdraw_single(
                        cfg.vesting_period,
                        p,
                        stakers@[sel[k]],
                        now,
                    ) is Ok
                &&& r matches Ok((rp, done, outs, last)) ==> {
                    &&& rp == p
                    &&& done@.len() == sel.len()
                    &&& outs@.len() == sel.len()
                    &&& forall|k: int|
                        0 <= k < sel.len() ==> done@[k] as int == sel[k] && outs@[k]
                            == #[trigger] spec_withdraw_single(
                            cfg.vesting_period,
                            p,
                            stakers@[sel[k]],
                            now,
                        )->Ok_0
                    &&& last@ == bulk_last_address(addresses@, sel)
                }
                &&& r is Err ==> exists|k: int|
                    0 <= k < sel.len() && r->Err_0 == #[trigger] spec_withdraw_single(
                        cfg.vesting_period,
                        p,
                        stakers@[sel[k]],
                        now,
                    )->Err_0 && spec_withdraw_single(cfg.vesting_period, p, stakers@[sel[k]], now) is Err
            }
        },
{
    if *sender != cfg.operator {
        return Err(ContractError::Unauthorized);
    }
    let p = update_reward_indexes(cfg, pools, now)?;
    let (done, last) = bulk_batch(addresses, start_after_address, limit);
    let ghost sel = bulk_positions(addresses@, *start_after_address, limit);
    assert forall|k: int| 0 <= k < done@.len() implies done@[k] as int == #[trigger] sel[k]
        && done@[k] < addresses@.len() by {
        assert(done@[k] as int == bulk_positions(addresses@, *start_after_address, limit)[k]);
    }
    let mut outs: Vec<WithdrawOutcome> = Vec::new();
    let mut i: usize = 0;
    while i < done.len()
        invariant
            sender@ == cfg.operator@,
            spec_update_reward_indexes(cfg.distribution_schedule, cfg.base_pool_ratio, *pools, now)
                == Ok::<Pools, ContractError>(p),
            sel == bulk_positions(addresses@, *start_after_address, limit),
            addresses@.len() == stakers@.len(),
            done@.len() == sel.len(),
            forall|k: int|
                0 <= k < done@.len() ==> done@[k] as int == #[trigger] sel[k] && done@[k]
                    < addresses@.len(),
            0 <= i <= done@.len(),
            outs@.len() == i,
            forall|j: int|
                0 <= j < i ==> #[trigger] spec_withdraw_single(
                    cfg.vesting_period,
                    p,
                    stakers@[sel[j]],
                    now,
                ) is Ok && outs@[j] == spec_withdraw_single(
                    cfg.vesting_period,
                    p,
                    stakers@[sel[j]],
                    now,
                )->Ok_0,
        decreases done@.len() - i,
    {
        assert(done@[i as int] as int == sel[i as int]);
        let o = _withdraw_rewards_single(cfg.vesting_period, &p, &stakers[done[i]], now);
        match o {
            Ok(o) => {
                outs.push(o);
            },
            Err(e) => {
                assert(spec_withdraw_single(cfg.vesting_period, p, stakers@[sel[i as int]], now) is Err);
                return Err(e);
            },
        }
        i = i + 1;
    }
    Ok((p, done, outs, last))
}

/// The messages that pay out `amount` of vested PRISM to `sender` as
/// `claim_type` asks; `xprism_balance` is this contract's xPRISM balance before
/// the claim.
pub open spec fn claim_actions(
    cfg: Config,
    contract: String,
    sender: String,
    claim_type: ClaimType,
    amount: u128,
    xprism_balance: u128,
) -> Seq<Action> {
    match claim_type {
        ClaimType::Prism => seq![
            Action::Transfer { asset: AssetInfo::Cw20(cfg.prism_token), recipient: sender, amount },
        ],
        ClaimType::Xprism => seq![Action::MintXprism { amount, receiver: sender }],
        ClaimType::Amps => seq![
            Action::MintXprism { amount, receiver: contract },
            Action::BondWithBoostContractHook { receiver: sender, prev_xprism_balance: xprism_balance },
        ],
    }
}

/// A staker claims their vested rewards at `now`: ended vests are released
/// (see `update_vest`) and the whole withdrawable amount is paid out as
/// `claim_type` asks; the withdrawable amount becomes zero. Refused when there
/// is nothing to claim. Returns the number of vests released, the amount
/// claimed and the messages. `contract` is this contract's address and
/// `xprism_balance` its xPRISM balance.
pub fn claim_withdrawn_rewards(
    cfg: &Config,
    contract: String,
    sender: String,
    now: u64,
    pending_withdraw: Option<u128>,
    vests: &Vec<(u64, u128)>,
    claim_type: ClaimType,
    xprism_balance: u128,
) -> (r: Result<(usize, u128, Vec<Action>), ContractError>)
    ensures
        ({
            let k = released_count(vests@, now);
            let amount = amount_or_zero(pending_withdraw) + sum_vests(vests@.take(k));
            if amount > u128::MAX {
                r == Err::<(usize, u128, Vec<Action>), ContractError>(ContractError::Aborted)
            } else if amount == 0 {
                r == Err::<(usize, u128, Vec<Action>), ContractError>(
                    ContractError::NoClaimableRewards,
                )
            } else {
                r matches Ok((rk, ra, actions)) && rk == k && ra == amount && actions@
                    == claim_actions(*cfg, contract, sender, claim_type, ra, xprism_balance)
            }
        }),
{
    let (amount, k) = update_vest(now, pending_withdraw, vests)?;
    if amount == 0 {
        return Err(ContractError::NoClaimableRewards);
    }
    let mut actions = Vec::new();
    match claim_type {
        ClaimType::Prism => {
            actions.push(
                Action::Transfer {
                    asset: AssetInfo::Cw20(cfg.prism_token.clone()),
                    recipient: sender,
                    amount,
                },
            );
        },
        ClaimType::Xprism => {
            actions.push(Action::MintXprism { amount, receiver: sender });
        },
        ClaimType::Amps => {
            actions.push(Action::MintXprism { amount, receiver: contract });
            actions.push(
                Action::BondWithBoostContractHook {
                    receiver: sender,
                    prev_xprism_balance: xprism_balance,
                },
            );
        },
    }
    Ok((k, amount, actions))
}

/// The hook that bonds freshly minted xPRISM for `receiver`: the amount is this
/// contract's xPRISM balance now minus the balance before the claim, and it is
/// sent to the boost contract when it is not zero. Only this contract may call
/// it. Returns the amount bonded and the messages.
pub fn bond_with_boost_contract_hook(
    sender: &String,
    contract: &String,
    receiver: String,
    prev_xprism_balance: u128,
    xprism_balance: u128,
) -> (r: Result<(u128, Vec<Action>), ContractError>)
    ensures
        sender@ != contract@ ==> r == Err::<(u128, Vec<Action>), ContractError>(
            ContractError::Unauthorized,
        ),
        sender@ == contract@ && xprism_balance < prev_xprism_balance ==> r == Err::<
            (u128, Vec<Action>),
            ContractError,
        >(ContractError::Overflow),
        sender@ == contract@ && xprism_balance >= prev_xprism_balance ==> (r matches Ok((a, actions))
            && a == xprism_balance - prev_xprism_balance && (if a == 0 {
            actions@ == Seq::<Action>::empty()
        } else {
            actions@ == seq![Action::BondWithBoost { amount: a, user: receiver }]
        })),
{
    if *sender != *contract {
        return Err(ContractError::Unauthorized);
    }
    if xprism_balance < prev_xprism_balance {
        return Err(ContractError::Overflow);
    }
    let reward = xprism_balance - prev_xprism_balance;
    let mut actions = Vec::new();
    if reward != 0 {
        actions.push(Action::BondWithBoost { amount: reward, user: receiver });
    }
    Ok((reward, actions))
}

/// The owner claims the yLuna staking rewards; `balances` are this contract's
/// balances of the staking contract's reward assets before the claim, which the
/// follow-up hook compares against. Refused for anyone but the owner.
pub fn admin_withdraw_rewards(cfg: &Config, sender: &String, balances: Vec<(AssetInfo, u128)>) -> (r:
    Result<Vec<Action>, ContractError>)
    ensures
        sender@ != cfg.owner@ ==> r == Err::<Vec<Action>, ContractError>(
            ContractError::Unauthorized,
        ),
        sender@ == cfg.owner@ ==> (r matches Ok(actions) && actions@ == seq![
            Action::ClaimStakingRewards,
            Action::AdminSendWithdrawnRewards { original_balances: balances },
        ]),
{
    if *sender != cfg.owner {
        return Err(ContractError::Unauthorized);
    }
    let mut actions = Vec::new();
    actions.push(Action::ClaimStakingRewards);
    actions.push(Action::AdminSendWithdrawnRewards { original_balances: balances });
    Ok(actions)
}

/// The transfers of what each asset's balance gained since the claim:
/// `(asset, balance before, balance now)`, skipping assets that gained nothing.
pub open spec fn gained_transfers(balances: Seq<(AssetInfo, u128, u128)>, owner: String) -> Seq<
    Action,
>
    decreases balances.len(),
{
    if balances.len() == 0 {
        Seq::empty()
    } else {
        let (asset, before, after) = balances.last();
        let rest = gained_transfers(balances.drop_last(), owner);
        if after - before == 0 {
            rest
        } else {
            rest.push(Action::Transfer { asset, recipient: owner, amount: (after - before) as u128 })
        }
    }
}

/// The hook that forwards to the owner what the staking reward claim brought
/// in; only this contract may call it. Each entry is `(asset, balance before
/// the claim, balance now)`; a balance that fell aborts the transaction.
pub fn admin_send_withdrawn_rewards(
    cfg: &Config,
    sender: &String,
    contract: &String,
    balances: &Vec<(AssetInfo, u128, u128)>,
) -> (r: Result<Vec<Action>, ContractError>)
    ensures
        sender@ != contract@ ==> r == Err::<Vec<Action>, ContractError>(
            ContractError::Unauthorized,
        ),
        sender@ == contract@ && (exists|i: int|
            0 <= i < balances@.len() && (#[trigger] balances@[i]).2 < balances@[i].1) ==> r == Err::<
            Vec<Action>,
            ContractError,
        >(ContractError::Aborted),
        sender@ == contract@ && (forall|i: int|
            0 <= i < balances@.len() ==> (#[trigger] balances@[i]).2 >= balances@[i].1) ==> (r matches Ok(
            actions,
        ) && actions@ == gained_transfers(balances@, cfg.owner)),
{
    if *sender != *contract {
        return Err(ContractError::Unauthorized);
    }
    let mut actions: Vec<Action> = Vec::new();
    let mut i: usize = 0;
    while i < balances.len()
        invariant
            sender@ == contract@,
            0 <= i <= balances@.len(),
            forall|j: int| 0 <= j < i ==> (#[trigger] balances@[j]).2 >= balances@[j].1,
            actions@ == gained_transfers(balances@.take(i as int), cfg.owner),
        decreases balances@.len() - i,
    {
        assert(balances@.take(i + 1).drop_last() =~= balances@.take(i as int));
        let asset = copy_asset_info(&balances[i].0);
        let before = balances[i].1;
        let after = balances[i].2;
        if after < before {
            return Err(ContractError::Aborted);
        }
        let gained = after - before;
        if gained != 0 {
            actions.push(Action::Transfer { asset, recipient: cfg.owner.clone(), amount: gained });
        }
        i = i + 1;
    }
    assert(balances@.take(i as int) =~= balances@);
    Ok(actions)
}

/// The configuration and pools after the owner's update at `now`. A new
/// minimum bond is simply stored. A new base pool ratio (at most one) is
/// applied after the pools are brought up to date under the old ratio; if the
/// distribution is under way (`start < now < end`) the schedule restarts at
/// `now` with what remains undistributed and both pools' `total_distributed`
/// restart at zero.
pub open spec fn spec_update_config(
    cfg: Config,
    pools: Pools,
    now: u64,
    min_bond_amount: Option<u128>,
    base_pool_ratio: Option<u128>,
) -> Result<(Config, Pools), ContractError> {
    let cfg1 = match min_bond_amount {
        Some(m) => Config { min_bond_amount: m, ..cfg },
        None => cfg,
    };
    match base_pool_ratio {
        None => Ok((cfg1, pools)),
        Some(ratio) => if ratio > DECIMAL_FRACTIONAL {
            Err(ContractError::InvalidBasePoolRatio)
        } else {
            match spec_update_reward_indexes(
                cfg1.distribution_schedule,
                cfg1.base_pool_ratio,
                pools,
                now,
            ) {
                Err(e) => Err(e),
                Ok(p) => {
                    let sched = cfg1.distribution_schedule;
                    if sched.start < now && now < sched.end {
                        let distributed = p.base.total_distributed + p.boost.total_distributed;
                        if distributed > u128::MAX {
                            Err(ContractError::Aborted)
                        } else if sched.amount < distributed {
                            Err(ContractError::Overflow)
                        } else {
                            Ok(
                                (
                                    Config {
                                        distribution_schedule: Schedule {
                                            start: now,
                                            end: sched.end,
                                            amount: (sched.amount - distributed) as u128,
                                        },
                                        base_pool_ratio: ratio,
                                        ..cfg1
                                    },
                                    Pools {
                                        base: DistributionStatus { total_distributed: 0, ..p.base },
                                        boost: DistributionStatus {
                                            total_distributed: 0,
                                            ..p.boost
                                        },
                                    },
                                ),
                            )
                        }
                    } else {
                        Ok((Config { base_pool_ratio: ratio, ..cfg1 }, p))
                    }
                },
            }
        },
    }
}

/// The owner updates the minimum bond and the base pool ratio (see
/// `spec_update_config`); refused for anyone else.
pub fn update_config(
    cfg: &Config,
    pools: &Pools,
    sender: &String,
    now: u64,
    min_bond_amount: Option<u128>,
    base_pool_ratio: Option<u128>,
) -> (r: Result<(Config, Pools), ContractError>)
    ensures
        sender@ != cfg.owner@ ==> r == Err::<(Config, Pools), ContractError>(
            ContractError::Unauthorized,
        ),
        sender@ == cfg.owner@ ==> r == spec_update_config(
            *cfg,
            *pools,
            now,
            min_bond_amount,
            base_pool_ratio,
        ),
{
    if *sender != cfg.owner {
        return Err(ContractError::Unauthorized);
    }
    let mut c = cfg.copy();
    if let Some(m) = min_bond_amount {
        c.min_bond_amount = m;
    }
    match base_pool_ratio {
        None => Ok((c, *pools)),
        Some(ratio) => {
            if ratio > DECIMAL_FRACTIONAL {
                return Err(ContractError::InvalidBasePoolRatio);
            }
            let p = update_reward_indexes(&c, pools, now)?;
            let sched = c.distribution_schedule;
            if sched.start < now && now < sched.end {
                let distributed = match p.base.total_distributed.checked_add(
                    p.boost.total_distributed,
                ) {
                    Some(d) => d,
                    None => return Err(ContractError::Aborted),
                };
                if sched.amount < distributed {
                    return Err(ContractError::Overflow);
                }
                c.distribution_schedule = Schedule {
                    start: now,
                    end: sched.end,
                    amount: sched.amount - distributed,
                };
                c.base_pool_ratio = ratio;
                Ok(
                    (
                        c,
                        Pools {
                            base: DistributionStatus { total_distributed: 0, ..p.base },
                            boost: DistributionStatus { total_distributed: 0, ..p.boost },
                        },
                    ),
                )
            } else {
                c.base_pool_ratio = ratio;
                Ok((c, p))
            }
        },
    }
}

/// The pools as they would be at `now`, without storing anything.
pub fn query_distribution_status(cfg: &Config, pools: &Pools, now: u64) -> (r: Result<
    Pools,
    ContractError,
>)
    ensures
        r == spec_update_reward_indexes(cfg.distribution_schedule, cfg.base_pool_ratio, *pools, now),
{
    update_reward_indexes(cfg, pools, now)
}

/// A staker's bond and reward record with rewards accrued up to the pools'
/// stored indexes (the pools are not brought up to date).
pub fn query_reward_info(pools: &Pools, bond_amount: Option<u128>, reward_info: Option<RewardInfo>) -> (r:
    Result<(u128, RewardInfo), ContractError>)
    ensures
        match spec_pull_pending_rewards(
            pools.base,
            pools.boost,
            bond_or_zero(bond_amount),
            reward_info_or_fresh(reward_info, pools.base, pools.boost),
        ) {
            Err(e) => r == Err::<(u128, RewardInfo), ContractError>(e),
            Ok(ri) => r == Ok::<(u128, RewardInfo), ContractError>(
                (bond_or_zero(bond_amount), ri),
            ),
        },
{
    let bond = match bond_amount {
        Some(v) => v,
        None => 0,
    };
    let ri = _pull_pending_rewards(&pools.base, &pools.boost, bond, reward_info)?;
    Ok((bond, ri))
}

/// The total of the vests that have ended at `now`.
pub open spec fn sum_ended(v: Seq<(u64, u128)>, now: u64) -> int
    decreases v.len(),
{
    if v.len() == 0 {
        0
    } else {
        sum_ended(v.drop_last(), now) + if v.last().0 <= now {
            v.last().1 as int
        } else {
            0
        }
    }
}

/// A staker's vesting status at `now`: every scheduled vest, and what is
/// withdrawable (the stored withdrawable amount plus every vest that has
/// ended).
pub fn query_vesting_status(now: u64, pending_withdraw: Option<u128>, vests: &Vec<(u64, u128)>) -> (r:
    Result<(Vec<(u64, u128)>, u128), ContractError>)
    ensures
        amount_or_zero(pending_withdraw) + sum_ended(vests@, now) > u128::MAX ==> r == Err::<
            (Vec<(u64, u128)>, u128),
            ContractError,
        >(ContractError::Aborted),
        amount_or_zero(pending_withdraw) + sum_ended(vests@, now) <= u128::MAX ==> (r matches Ok(
            (list, w),
        ) && list@ == vests@ && w == amount_or_zero(pending_withdraw) + sum_ended(vests@, now)),
{
    let mut acc: u128 = match pending_withdraw {
        Some(v) => v,
        None => 0,
    };
    let mut overflowed = false;
    let mut list: Vec<(u64, u128)> = Vec::new();
    let mut i: usize = 0;
    proof {
        assert(vests@.take(0) =~= Seq::<(u64, u128)>::empty());
    }
    while i < vests.len()
        invariant
            0 <= i <= vests@.len(),
            list@ == vests@.take(i as int),
            !overflowed ==> acc == amount_or_zero(pending_withdraw) + sum_ended(
                vests@.take(i as int),
                now,
            ),
            overflowed ==> amount_or_zero(pending_withdraw) + sum_ended(vests@.take(i as int), now)
                > u128::MAX,
        decreases vests@.len() - i,
    {
        assert(vests@.take(i + 1).drop_last() =~= vests@.take(i as int));
        let entry = vests[i];
        list.push(entry);
        if !overflowed && entry.0 <= now {
            match acc.checked_add(entry.1) {
                Some(v) => {
                    acc = v;
                },
                None => {
                    overflowed = true;
                },
            }
        }
        i = i + 1;
        assert(list@ =~= vests@.take(i as int));
    }
    assert(vests@.take(i as int) =~= vests@);
    if overflowed {
        return Err(ContractError::Aborted);
    }
    Ok((list, acc))
}


/// A cw20 `Receive` carrying a bond: only the yLuna token contract (`token`,
/// the message's sender) may deliver it; the bond itself follows `bond` for the
/// staker the cw20 message names.
pub fn receive_bond(
    cfg: &Config,
    pools: &Pools,
    token: &String,
    bond_amount: Option<u128>,
    reward_info: Option<RewardInfo>,
    now: u64,
    amount: u128,
    boost_amount: u128,
) -> (r: Result<(StakerUpdate, Vec<Action>), ContractError>)
    ensures
        token@ != cfg.yluna_token@ ==> r == Err::<(StakerUpdate, Vec<Action>), ContractError>(
            ContractError::Unauthorized,
        ),
        token@ == cfg.yluna_token@ ==> {
            &&& r is Ok <==> spec_bond(*cfg, *pools, bond_amount, reward_info, now, amount, boost_amount) is Ok
            &&& r is Err ==> r->Err_0 == spec_bond(*cfg, *pools, bond_amount, reward_info, now, amount, boost_amount)->Err_0
            &&& r matches Ok((u, actions)) ==> u == spec_bond(*cfg, *pools, bond_amount, reward_info, now, amount, boost_amount)->Ok_0
                && actions@ == seq![Action::StakeYluna { amount }]
        },
{
    if *token != cfg.yluna_token {
        return Err(ContractError::Unauthorized);
    }
    bond(cfg, pools, bond_amount, reward_info, now, amount, boost_amount)
}

/// A staker with nothing bonded who bonds `amount` and then, at the same time,
/// unbonds everything gets `amount` back, keeps a bond record of zero, and
/// leaves the total weights of both pools as they were.
#[verifier::spinoff_prover]
#[verifier::rlimit(40)]
pub proof fn lemma_bond_then_unbond_restores_weights(
    cfg: Config,
    pools: Pools,
    now: u64,
    amount: u128,
    boost_amount: u128,
    boost_after: u128,
)
    requires
        spec_bond(cfg, pools, None, None, now, amount, boost_amount) is Ok,
        ({
            let u = spec_bond(cfg, pools, None, None, now, amount, boost_amount)->Ok_0;
            spec_unbond(cfg, u.pools, u.bond_amount, u.reward_info, now, None, boost_after) is Ok
        }),
    ensures
        ({
            let u = spec_bond(cfg, pools, None, None, now, amount, boost_amount)->Ok_0;
            let (back, unbonded) = spec_unbond(
                cfg,
                u.pools,
                u.bond_amount,
                u.reward_info,
                now,
                None,
                boost_after,
            )->Ok_0;
            &&& unbonded == amount
            &&& back.bond_amount == Some(0u128)
            &&& back.pools.base.total_weight == pools.base.total_weight
            &&& back.pools.boost.total_weight == pools.boost.total_weight
        }),
{
    let sched = cfg.distribution_schedule;
    let ratio = cfg.base_pool_ratio;
    lemma_update_keeps_weights(sched, ratio, pools, now);
    let p = spec_update_reward_indexes(sched, ratio, pools, now)->Ok_0;
    let ri = spec_pull_pending_rewards(p.base, p.boost, 0, fresh_reward_info(p.base, p.boost))->Ok_0;
    assert(ri.boost_weight == 0);
    lemma_isqrt_exists(amount * boost_amount);
    let (pool_b, rec) = spec_update_boost_weight(p.boost, ri, amount, boost_amount)->Ok_0;
    let u = spec_bond(cfg, pools, None, None, now, amount, boost_amount)->Ok_0;
    assert(u.pools.base.total_weight == p.base.total_weight + amount);
    assert(u.pools.boost == pool_b);
    assert(u.reward_info == Some(rec));
    assert(pool_b.total_weight == p.boost.total_weight + rec.boost_weight);
    lemma_update_keeps_weights(sched, ratio, u.pools, now);
    let p2 = spec_update_reward_indexes(sched, ratio, u.pools, now)->Ok_0;
    let ri2 = spec_pull_pending_rewards(p2.base, p2.boost, amount, rec)->Ok_0;
    assert(ri2.boost_weight == rec.boost_weight);
    lemma_isqrt_unique(0, 0);
    assert(isqrt(0) == 0);
}

} // verus!
