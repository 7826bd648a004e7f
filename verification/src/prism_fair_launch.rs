//! The fair launch: during phase 1 anyone deposits the base coin and may
//! withdraw it freely; during phase 2 deposits are closed and each depositor
//! may withdraw once, at most a share of the deposit that shrinks hour by hour
//! (withdrawals of large amounts also pay the withdraw fee); after phase 2 each
//! depositor claims the launched tokens once, in proportion to their deposit,
//! and the owner takes the base coin.

use crate::math::{decimal_mul, multiply_ratio, ratio_of, DECIMAL_FRACTIONAL};
use vstd::prelude::*;

verus! {

/// Why a fair-launch operation is rejected.
#[derive(Clone, Debug, PartialEq, Eq)]
pub enum FairLaunchError {
    /// The withdraw fee is more than one.
    InvalidFee,
    /// "Unauthorized"
    Unauthorized,
    /// The launch is already configured.
    DuplicatePostInit,
    /// The phases are not in order, or phase 1 has begun.
    InvalidLaunchConfig,
    /// "deposit period is over"
    DepositPeriodOver,
    /// "requires 1 coin deposited"
    DepositNotOneCoin,
    /// "requires {base_denom} and positive amount"
    DepositWrongCoin { base_denom: String },
    /// "withdraw period is over"
    WithdrawPeriodOver,
    /// "no funds available to withdraw"
    NoFundsToWithdraw,
    /// "can not withdraw more than current deposit amount ({deposit})"
    WithdrawMoreThanDeposit { deposit: u128 },
    /// "can not withdraw more than current withrawable amount ({withdrawable})"
    WithdrawMoreThanWithdrawable { withdrawable: u128 },
    /// "a withdraw was already executed on phase 2"
    AlreadyWithdrawnInPhase2,
    /// "withdraw amount must be bigger than 0"
    WithdrawZero,
    /// "cannot withdraw tokens yet"
    TokensNotYetWithdrawable,
    /// "no tokens available for withdraw"
    NoTokensToWithdraw,
    /// "tokens were already claimed"
    TokensAlreadyClaimed,
    /// "cannot withdraw funds yet"
    AdminWithdrawTooEarly,
    /// The sender has no deposit record.
    DepositNotFound,
    /// The launch is not configured, or an arithmetic step overflows or
    /// underflows, which aborts the transaction.
    Aborted,
}

/// The launch: `amount` tokens are distributed; deposits are taken from
/// `phase1_start` to `phase2_start`, withdrawals until `phase2_end`.
#[derive(Clone, Copy, Debug, PartialEq, Eq)]
pub struct LaunchConfig {
    pub amount: u128,
    pub phase1_start: u64,
    pub phase2_start: u64,
    pub phase2_end: u64,
}

/// The fair launch's configuration. `withdraw_fee` is a decimal in atomic
/// units, charged in phase 2 on withdrawals above `withdraw_threshold`.
#[derive(Clone, Debug, PartialEq, Eq)]
pub struct Config {
    pub owner: String,
    pub token: String,
    pub launch_config: Option<LaunchConfig>,
    pub base_denom: String,
    pub withdraw_fee: u128,
    pub withdraw_threshold: u128,
}

/// A coin sent along with a message.
#[derive(Clone, Debug, PartialEq, Eq)]
pub struct Coin {
    pub denom: String,
    pub amount: u128,
}

/// An outgoing message of the fair launch.
#[derive(Clone, Debug, PartialEq, Eq)]
pub enum LaunchAction {
    /// Move `amount` of the cw20 `token` from `owner` to `recipient` (by
    /// allowance).
    TransferFrom { token: String, owner: String, recipient: String, amount: u128 },
    /// Send `amount` of the native coin `denom` to `recipient` (less the
    /// chain's tax on it).
    SendNative { denom: String, recipient: String, amount: u128 },
    /// Transfer `amount` of the cw20 `token` to `recipient`.
    SendToken { token: String, recipient: String, amount: u128 },
}

/// A withdrawal of deposit: the depositor's new deposit, the new total, the
/// amount sent (before tax), the fee kept, and whether it was made in phase 2
/// (after which the depositor may not withdraw again).
#[derive(Clone, Debug, PartialEq, Eq)]
pub struct Withdrawal {
    pub deposit: u128,
    pub total_deposit: u128,
    pub sent: u128,
    pub fee: u128,
    pub in_phase2: bool,
    pub action: LaunchAction,
}

/// What the deposit query reports of a depositor: the deposit, the total, what
/// may be withdrawn now, the tokens the deposit would claim, and whether
/// claiming is open.
#[derive(Clone, Copy, Debug, PartialEq, Eq)]
pub struct DepositResponse {
    pub deposit: u128,
    pub total_deposit: u128,
    pub withdrawable_amount: u128,
    pub tokens_to_claim: u128,
    pub can_claim: bool,
}

/// Phase 2 is counted in slots of this many seconds.
pub const SLOT_SECONDS: u64 = 3600;

/// How much of the deposit `deposit` may be withdrawn at `now`: all of it
/// before phase 2; during phase 2 the share of whole slots left of all whole
/// slots of the phase, and nothing once the depositor has withdrawn in phase 2
/// (or where the phase is shorter than a slot); nothing after phase 2.
pub open spec fn withdrawable_of(l: LaunchConfig, now: u64, deposit: int, withdrew_phase2: bool) -> int {
    if now < l.phase2_start {
        deposit
    } else if now >= l.phase2_end || withdrew_phase2 {
        0
    } else {
        let slots = (l.phase2_end - l.phase2_start) / (SLOT_SECONDS as int);
        let left = (l.phase2_end - now) / (SLOT_SECONDS as int);
        if slots == 0 {
            0
        } else {
            ratio_of(deposit, left, slots)
        }
    }
}

proof fn lemma_share_at_most(d: int, left: int, slots: int)
    requires
        d >= 0,
        0 <= left <= slots,
        slots > 0,
    ensures
        0 <= ratio_of(d, left, slots) <= d,
{
    assert(d * left <= d * slots) by (nonlinear_arith)
        requires
            d >= 0,
            left <= slots,
    ;
    assert(d * slots / slots == d) by (nonlinear_arith)
        requires
            slots > 0,
    ;
    assert(d * left / slots <= d * slots / slots) by (nonlinear_arith)
        requires
            d * left <= d * slots,
            slots > 0,
    ;
    assert(0 <= d * left / slots) by (nonlinear_arith)
        requires
            d >= 0,
            left >= 0,
            slots > 0,
    ;
}

/// How much of `deposit` may be withdrawn at `now` (see `withdrawable_of`);
/// `withdrew_phase2` says whether the depositor has withdrawn in phase 2.
pub fn withdrawable_amount(launch: &LaunchConfig, now: u64, deposit: u128, withdrew_phase2: bool) -> (r:
    u128)
    ensures
        r == withdrawable_of(*launch, now, deposit as int, withdrew_phase2),
        r <= deposit,
{
    if now < launch.phase2_start {
        return deposit;
    }
    if now >= launch.phase2_end || withdrew_phase2 {
        return 0;
    }
    let slots = (launch.phase2_end - launch.phase2_start) / SLOT_SECONDS;
    let left = (launch.phase2_end - now) / SLOT_SECONDS;
    if slots == 0 {
        return 0;
    }
    proof {
        vstd::arithmetic::div_mod::lemma_div_is_ordered(
            (launch.phase2_end - now) as int,
            (launch.phase2_end - launch.phase2_start) as int,
            SLOT_SECONDS as int,
        );
        lemma_share_at_most(deposit as int, left as int, slots as int);
    }
    match multiply_ratio(deposit, left as u128, slots as u128) {
        Some(v) => v,
        None => 0,
    }
}

/// Checks an instantiation and returns the configuration to store; the total
/// deposit starts at zero.
pub fn instantiate(
    owner: String,
    token: String,
    base_denom: String,
    withdraw_threshold: u128,
    withdraw_fee: u128,
) -> (r: Result<Config, FairLaunchError>)
    ensures
        r == if withdraw_fee > DECIMAL_FRACTIONAL {
            Err::<Config, FairLaunchError>(FairLaunchError::InvalidFee)
        } else {
            Ok::<Config, FairLaunchError>(
                Config {
                    owner,
                    token,
                    launch_config: None,
                    base_denom,
                    withdraw_fee,
                    withdraw_threshold,
                },
            )
        },
{
    if withdraw_fee > DECIMAL_FRACTIONAL {
        return Err(FairLaunchError::InvalidFee);
    }
    Ok(Config { owner, token, launch_config: None, base_denom, withdraw_fee, withdraw_threshold })
}

/// The owner configures the launch once, before phase 1 begins, and the
/// launched tokens are pulled from the owner into the contract
/// (`contract_addr`).
pub fn post_initialize(
    cfg: Config,
    sender: String,
    contract_addr: String,
    now: u64,
    launch_config: LaunchConfig,
) -> (r: Result<(Config, LaunchAction), FairLaunchError>)
    ensures
        sender@ != cfg.owner@ ==> r == Err::<(Config, LaunchAction), FairLaunchError>(
            FairLaunchError::Unauthorized,
        ),
        sender@ == cfg.owner@ && cfg.launch_config is Some ==> r == Err::<
            (Config, LaunchAction),
            FairLaunchError,
        >(FairLaunchError::DuplicatePostInit),
        sender@ == cfg.owner@ && cfg.launch_config is None ==> r == if now
            > launch_config.phase1_start || launch_config.phase1_start > launch_config.phase2_start
            || launch_config.phase2_start > launch_config.phase2_end {
            Err::<(Config, LaunchAction), FairLaunchError>(FairLaunchError::InvalidLaunchConfig)
        } else {
            Ok::<(Config, LaunchAction), FairLaunchError>(
                (
                    Config { launch_config: Some(launch_config), ..cfg },
                    LaunchAction::TransferFrom {
                        token: cfg.token,
                        owner: sender,
                        recipient: contract_addr,
                        amount: launch_config.amount,
                    },
                ),
            )
        },
{
    if sender != cfg.owner {
        return Err(FairLaunchError::Unauthorized);
    }
    if cfg.launch_config.is_some() {
        return Err(FairLaunchError::DuplicatePostInit);
    }
    if now > launch_config.phase1_start || launch_config.phase1_start > launch_config.phase2_start
        || launch_config.phase2_start > launch_config.phase2_end {
        return Err(FairLaunchError::InvalidLaunchConfig);
    }
    let action = LaunchAction::TransferFrom {
        token: cfg.token.clone(),
        owner: sender,
        recipient: contract_addr,
        amount: launch_config.amount,
    };
    Ok((Config { launch_config: Some(launch_config), ..cfg }, action))
}

/// A stored amount, zero where there is none.
pub open spec fn or_zero(a: Option<u128>) -> int {
    match a {
        Some(v) => v as int,
        None => 0,
    }
}

/// Deposits the one coin sent (`funds`) before phase 2: returns the
/// depositor's new deposit (`stored` is the stored one) and the new total.
pub fn deposit(cfg: &Config, now: u64, funds: &Vec<Coin>, stored: Option<u128>, total_deposit: u128) -> (r:
    Result<(u128, u128), FairLaunchError>)
    ensures
        cfg.launch_config is None ==> r == Err::<(u128, u128), FairLaunchError>(
            FairLaunchError::Aborted,
        ),
        cfg.launch_config matches Some(l) && now >= l.phase2_start ==> r == Err::<
            (u128, u128),
            FairLaunchError,
        >(FairLaunchError::DepositPeriodOver),
        cfg.launch_config matches Some(l) && now < l.phase2_start && funds@.len() != 1 ==> r
            == Err::<(u128, u128), FairLaunchError>(FairLaunchError::DepositNotOneCoin),
        cfg.launch_config matches Some(l) && now < l.phase2_start && funds@.len() == 1 ==> {
            let coin = funds@[0];
            if coin.denom@ != cfg.base_denom@ || coin.amount == 0 {
                r == Err::<(u128, u128), FairLaunchError>(
                    FairLaunchError::DepositWrongCoin { base_denom: cfg.base_denom },
                )
            } else if or_zero(stored) + coin.amount > u128::MAX || total_deposit + coin.amount
                > u128::MAX {
                r == Err::<(u128, u128), FairLaunchError>(FairLaunchError::Aborted)
            } else {
                r == Ok::<(u128, u128), FairLaunchError>(
                    (
                        (or_zero(stored) + coin.amount) as u128,
                        (total_deposit + coin.amount) as u128,
                    ),
                )
            }
        },
{
    let launch = match cfg.launch_config {
        Some(l) => l,
        None => return Err(FairLaunchError::Aborted),
    };
    if now >= launch.phase2_start {
        return Err(FairLaunchError::DepositPeriodOver);
    }
    if funds.len() != 1 {
        return Err(FairLaunchError::DepositNotOneCoin);
    }
    let coin = &funds[0];
    if coin.denom != cfg.base_denom || coin.amount == 0 {
        return Err(FairLaunchError::DepositWrongCoin { base_denom: cfg.base_denom.clone() });
    }
    let current = match stored {
        Some(d) => d,
        None => 0,
    };
    let new_deposit = match current.checked_add(coin.amount) {
        Some(v) => v,
        None => return Err(FairLaunchError::Aborted),
    };
    let new_total = match total_deposit.checked_add(coin.amount) {
        Some(v) => v,
        None => return Err(FairLaunchError::Aborted),
    };
    Ok((new_deposit, new_total))
}

/// The amount a withdrawal asks for: `amount`, or `all` where none is given.
pub open spec fn withdraw_amount(all: int, amount: Option<u128>) -> int {
    match amount {
        Some(a) => a as int,
        None => all,
    }
}

/// The fee on withdrawing `w` at `now`: charged in phase 2 on withdrawals
/// above the threshold.
pub open spec fn withdraw_fee_of(cfg: Config, launch: LaunchConfig, now: u64, w: int) -> int {
    if now > launch.phase2_start && w > cfg.withdraw_threshold {
        decimal_mul(w, cfg.withdraw_fee as int)
    } else {
        0
    }
}

/// Withdraws `amount` (all that may be withdrawn, where `None`) of the
/// sender's deposit (`stored` is the stored one) before phase 2 ends.
/// `withdrew_phase2` says whether the sender has already withdrawn in phase 2:
/// then a phase-2 withdrawal is refused. The amount may not exceed
/// `withdrawable_of`; in phase 2 a withdrawal above the threshold pays the
/// withdraw fee. Returns the new deposit and total, the base coin sent to
/// `sender`, and whether the withdrawal falls in phase 2.
pub fn withdraw(
    cfg: &Config,
    sender: String,
    now: u64,
    stored: Option<u128>,
    total_deposit: u128,
    withdrew_phase2: bool,
    amount: Option<u128>,
) -> (r: Result<Withdrawal, FairLaunchError>)
    ensures
        cfg.launch_config is None ==> r == Err::<Withdrawal, FairLaunchError>(FairLaunchError::Aborted),
        cfg.launch_config is Some ==> {
            let l = cfg.launch_config->Some_0;
            let cur = or_zero(stored);
            let allowed = withdrawable_of(l, now, cur, false);
            let w = withdraw_amount(allowed, amount);
            let fee = withdraw_fee_of(*cfg, l, now, w);
            if now >= l.phase2_end {
                r == Err::<Withdrawal, FairLaunchError>(FairLaunchError::WithdrawPeriodOver)
            } else if cur == 0 {
                r == Err::<Withdrawal, FairLaunchError>(FairLaunchError::NoFundsToWithdraw)
            } else if now >= l.phase2_start && withdrew_phase2 {
                r == Err::<Withdrawal, FairLaunchError>(FairLaunchError::AlreadyWithdrawnInPhase2)
            } else if w > allowed {
                r == Err::<Withdrawal, FairLaunchError>(
                    FairLaunchError::WithdrawMoreThanWithdrawable { withdrawable: allowed as u128 },
                )
            } else if w == 0 {
                r == Err::<Withdrawal, FairLaunchError>(FairLaunchError::WithdrawZero)
            } else if w > total_deposit || fee > w {
                r == Err::<Withdrawal, FairLaunchError>(FairLaunchError::Aborted)
            } else {
                r == Ok::<Withdrawal, FairLaunchError>(
                    Withdrawal {
                        deposit: (cur - w) as u128,
                        total_deposit: (total_deposit - w) as u128,
                        sent: (w - fee) as u128,
                        fee: fee as u128,
                        in_phase2: now >= l.phase2_start,
                        action: LaunchAction::SendNative {
                            denom: cfg.base_denom,
                            recipient: sender,
                            amount: (w - fee) as u128,
                        },
                    },
                )
            }
        },
{
    let launch = match cfg.launch_config {
        Some(l) => l,
        None => return Err(FairLaunchError::Aborted),
    };
    if now >= launch.phase2_end {
        return Err(FairLaunchError::WithdrawPeriodOver);
    }
    let cur = match stored {
        Some(d) => d,
        None => 0,
    };
    if cur == 0 {
        return Err(FairLaunchError::NoFundsToWithdraw);
    }
    let in_phase2 = now >= launch.phase2_start;
    if in_phase2 && withdrew_phase2 {
        return Err(FairLaunchError::AlreadyWithdrawnInPhase2);
    }
    let allowed = withdrawable_amount(&launch, now, cur, false);
    let w = match amount {
        None => allowed,
        Some(a) => a,
    };
    if w > allowed {
        return Err(FairLaunchError::WithdrawMoreThanWithdrawable { withdrawable: allowed });
    }
    if w == 0 {
        return Err(FairLaunchError::WithdrawZero);
    }
    if w > total_deposit {
        return Err(FairLaunchError::Aborted);
    }
    let fee = if now > launch.phase2_start && w > cfg.withdraw_threshold {
        match multiply_ratio(w, cfg.withdraw_fee, DECIMAL_FRACTIONAL) {
            Some(f) => f,
            None => return Err(FairLaunchError::Aborted),
        }
    } else {
        0
    };
    if fee > w {
        return Err(FairLaunchError::Aborted);
    }
    Ok(
        Withdrawal {
            deposit: cur - w,
            total_deposit: total_deposit - w,
            sent: w - fee,
            fee,
            in_phase2,
            action: LaunchAction::SendNative {
                denom: cfg.base_denom.clone(),
                recipient: sender,
                amount: w - fee,
            },
        },
    )
}

/// After phase 2, a depositor claims the launched tokens in proportion to
/// their deposit (`stored`, `None` where there is no record) of the total,
/// once: `claimed` says whether they already have. Returns the tokens sent;
/// the claim is then recorded and the deposit is zero.
pub fn withdraw_tokens(
    cfg: &Config,
    sender: String,
    now: u64,
    stored: Option<u128>,
    total_deposit: u128,
    claimed: bool,
) -> (r: Result<(u128, LaunchAction), FairLaunchError>)
    ensures
        cfg.launch_config is None ==> r == Err::<(u128, LaunchAction), FairLaunchError>(
            FairLaunchError::Aborted,
        ),
        cfg.launch_config is Some ==> {
            let l = cfg.launch_config->Some_0;
            if now < l.phase2_end {
                r == Err::<(u128, LaunchAction), FairLaunchError>(
                    FairLaunchError::TokensNotYetWithdrawable,
                )
            } else if claimed {
                r == Err::<(u128, LaunchAction), FairLaunchError>(FairLaunchError::TokensAlreadyClaimed)
            } else if stored is None {
                r == Err::<(u128, LaunchAction), FairLaunchError>(FairLaunchError::DepositNotFound)
            } else if total_deposit == 0 || ratio_of(
                l.amount as int,
                stored->Some_0 as int,
                total_deposit as int,
            ) > u128::MAX {
                r == Err::<(u128, LaunchAction), FairLaunchError>(FairLaunchError::Aborted)
            } else if ratio_of(l.amount as int, stored->Some_0 as int, total_deposit as int) == 0 {
                r == Err::<(u128, LaunchAction), FairLaunchError>(
                    FairLaunchError::NoTokensToWithdraw,
                )
            } else {
                let amount = ratio_of(l.amount as int, stored->Some_0 as int, total_deposit as int)
                    as u128;
                r == Ok::<(u128, LaunchAction), FairLaunchError>(
                    (amount, LaunchAction::SendToken { token: cfg.token, recipient: sender, amount }),
                )
            }
        },
{
    let launch = match cfg.launch_config {
        Some(l) => l,
        None => return Err(FairLaunchError::Aborted),
    };
    if now < launch.phase2_end {
        return Err(FairLaunchError::TokensNotYetWithdrawable);
    }
    if claimed {
        return Err(FairLaunchError::TokensAlreadyClaimed);
    }
    let deposited = match stored {
        Some(d) => d,
        None => return Err(FairLaunchError::DepositNotFound),
    };
    let amount = match multiply_ratio(launch.amount, deposited, total_deposit) {
        Some(a) => a,
        None => return Err(FairLaunchError::Aborted),
    };
    if amount == 0 {
        return Err(FairLaunchError::NoTokensToWithdraw);
    }
    Ok((amount, LaunchAction::SendToken { token: cfg.token.clone(), recipient: sender, amount }))
}

/// After phase 2 the owner takes the contract's base coin (`balance`).
pub fn admin_withdraw(cfg: &Config, sender: String, now: u64, balance: u128) -> (r: Result<
    LaunchAction,
    FairLaunchError,
>)
    ensures
        cfg.launch_config is None ==> r == Err::<LaunchAction, FairLaunchError>(
            FairLaunchError::Aborted,
        ),
        cfg.launch_config is Some && sender@ != cfg.owner@ ==> r == Err::<
            LaunchAction,
            FairLaunchError,
        >(FairLaunchError::Unauthorized),
        cfg.launch_config is Some && sender@ == cfg.owner@ ==> r == if now
            < cfg.launch_config->Some_0.phase2_end {
            Err::<LaunchAction, FairLaunchError>(FairLaunchError::AdminWithdrawTooEarly)
        } else {
            Ok::<LaunchAction, FairLaunchError>(
                LaunchAction::SendNative { denom: cfg.base_denom, recipient: sender, amount: balance },
            )
        },
{
    let launch = match cfg.launch_config {
        Some(l) => l,
        None => return Err(FairLaunchError::Aborted),
    };
    if sender != cfg.owner {
        return Err(FairLaunchError::Unauthorized);
    }
    if now < launch.phase2_end {
        return Err(FairLaunchError::AdminWithdrawTooEarly);
    }
    Ok(LaunchAction::SendNative { denom: cfg.base_denom.clone(), recipient: sender, amount: balance })
}

/// The tokens a deposit would claim: its share of the launched amount, zero
/// where nothing is deposited in all.
pub open spec fn tokens_to_claim_of(amount: u128, deposit: int, total: int) -> int {
    if total == 0 {
        0
    } else {
        ratio_of(amount as int, deposit, total)
    }
}

/// What the deposit query reports at `now` of a depositor whose stored
/// deposit is `stored` (zero where there is none), with `withdrew_phase2` and
/// `claimed` the depositor's records. Refused where the launch is not
/// configured or the claim does not fit.
pub fn query_deposit_info(
    cfg: &Config,
    now: u64,
    stored: Option<u128>,
    total_deposit: u128,
    withdrew_phase2: bool,
    claimed: bool,
) -> (r: Result<DepositResponse, FairLaunchError>)
    ensures
        match cfg.launch_config {
            None => r == Err::<DepositResponse, FairLaunchError>(FairLaunchError::Aborted),
            Some(l) => {
                let d = or_zero(stored);
                let tokens = tokens_to_claim_of(l.amount, d, total_deposit as int);
                if tokens > u128::MAX {
                    r == Err::<DepositResponse, FairLaunchError>(FairLaunchError::Aborted)
                } else {
                    r == Ok::<DepositResponse, FairLaunchError>(
                        DepositResponse {
                            deposit: d as u128,
                            total_deposit,
                            withdrawable_amount: withdrawable_of(l, now, d, withdrew_phase2) as u128,
                            tokens_to_claim: tokens as u128,
                            can_claim: now >= l.phase2_end && !claimed,
                        },
                    )
                }
            },
        },
{
    let launch = match cfg.launch_config {
        Some(l) => l,
        None => return Err(FairLaunchError::Aborted),
    };
    let d = match stored {
        Some(d) => d,
        None => 0,
    };
    let tokens = if total_deposit == 0 {
        0
    } else {
        match multiply_ratio(launch.amount, d, total_deposit) {
            Some(t) => t,
            None => return Err(FairLaunchError::Aborted),
        }
    };
    Ok(
        DepositResponse {
            deposit: d,
            total_deposit,
            withdrawable_amount: withdrawable_amount(&launch, now, d, withdrew_phase2),
            tokens_to_claim: tokens,
            can_claim: now >= launch.phase2_end && !claimed,
        },
    )
}

/// The sum of some deposits.
pub open spec fn sum_deposits(ds: Seq<u128>) -> int
    decreases ds.len(),
{
    if ds.len() == 0 {
        0
    } else {
        sum_deposits(ds.drop_last()) + ds.last()
    }
}

/// The tokens the depositors `ds` claim in all, each their share of `amount`.
pub open spec fn sum_claims(amount: u128, ds: Seq<u128>, total: u128) -> int
    decreases ds.len(),
{
    if ds.len() == 0 {
        0
    } else {
        sum_claims(amount, ds.drop_last(), total) + ratio_of(amount as int, ds.last() as int, total as int)
    }
}

proof fn lemma_floor_add(x: int, y: int, t: int)
    requires
        t > 0,
        x >= 0,
        y >= 0,
    ensures
        x / t + y / t <= (x + y) / t,
{
    vstd::arithmetic::div_mod::lemma_fundamental_div_mod(x, t);
    vstd::arithmetic::div_mod::lemma_fundamental_div_mod(y, t);
    vstd::arithmetic::div_mod::lemma_fundamental_div_mod(x + y, t);
    vstd::arithmetic::div_mod::lemma_mod_bound(x, t);
    vstd::arithmetic::div_mod::lemma_mod_bound(y, t);
    vstd::arithmetic::div_mod::lemma_mod_bound(x + y, t);
    let qx = x / t;
    let qy = y / t;
    let q = (x + y) / t;
    assert(t * (qx + qy) == t * qx + t * qy) by (nonlinear_arith);
    assert(t * (qx + qy) <= t * q + t - 1);
    assert(qx + qy <= q) by (nonlinear_arith)
        requires
            t > 0,
            t * (qx + qy) <= t * q + t - 1,
    ;
}

proof fn lemma_sum_claims_bound(amount: u128, ds: Seq<u128>, total: u128)
    requires
        total > 0,
    ensures
        sum_claims(amount, ds, total) <= ratio_of(amount as int, sum_deposits(ds), total as int),
        sum_deposits(ds) >= 0,
    decreases ds.len(),
{
    if ds.len() > 0 {
        let rest = ds.drop_last();
        lemma_sum_claims_bound(amount, rest, total);
        let a = amount as int;
        let s = sum_deposits(rest);
        let d = ds.last() as int;
        assert(a * s >= 0 && a * d >= 0) by (nonlinear_arith)
            requires
                a >= 0,
                s >= 0,
                d >= 0,
        ;
        assert(a * (s + d) == a * s + a * d) by (nonlinear_arith);
        lemma_floor_add(a * s, a * d, total as int);
    }
}

/// The launch never hands out more tokens than it has: when every depositor
/// claims, with the deposits `ds` making up the total, the claims add up to
/// at most the launched amount.
pub proof fn lemma_claims_within_launch(amount: u128, ds: Seq<u128>, total: u128)
    requires
        total > 0,
        sum_deposits(ds) == total,
    ensures
        sum_claims(amount, ds, total) <= amount,
{
    lemma_sum_claims_bound(amount, ds, total);
    let a = amount as int;
    let t = total as int;
    assert(a * t / t == a) by (nonlinear_arith)
        requires
            t > 0,
    ;
}

} // verus!
