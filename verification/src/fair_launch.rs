//! The first fair launch: the same phases as the PRISM fair launch, without
//! a withdraw fee and without the owner's withdrawal of the base coin.

use crate::math::ratio_of;
use crate::prism_fair_launch::{self as pfl, Coin, FairLaunchError, LaunchAction, LaunchConfig};
use vstd::prelude::*;

verus! {

/// The first fair launch's configuration.
#[derive(Clone, Debug, PartialEq, Eq)]
pub struct Config {
    pub owner: String,
    pub token: String,
    pub launch_config: Option<LaunchConfig>,
    pub base_denom: String,
}

/// The configuration as the PRISM fair launch's, with no withdraw fee.
pub open spec fn fee_free(cfg: Config) -> pfl::Config {
    pfl::Config {
        owner: cfg.owner,
        token: cfg.token,
        launch_config: cfg.launch_config,
        base_denom: cfg.base_denom,
        withdraw_fee: 0,
        withdraw_threshold: 0,
    }
}

fn to_fee_free(cfg: &Config) -> (r: pfl::Config)
    ensures
        r == fee_free(*cfg),
{
    pfl::Config {
        owner: cfg.owner.clone(),
        token: cfg.token.clone(),
        launch_config: cfg.launch_config,
        base_denom: cfg.base_denom.clone(),
        withdraw_fee: 0,
        withdraw_threshold: 0,
    }
}

/// The configuration to store at instantiation; the total deposit starts at
/// zero.
pub fn instantiate(owner: String, token: String, base_denom: String) -> (r: Config)
    ensures
        r == (Config { owner, token, launch_config: None, base_denom }),
{
    Config { owner, token, launch_config: None, base_denom }
}

/// The owner configures the launch once, before phase 1 begins, and the
/// launched tokens are pulled from the owner into the contract
/// (`contract_addr`). Only the order of phase 1's start and phase 2's start is
/// checked.
pub fn post_initialize(
    cfg: Config,
    sender: String,
    contract_addr: String,
    now: u64,
    launch_config: LaunchConfig,
) -> (r: Result<(Config, LaunchAction), FairLaunchError>)
    ensures
        sender@ != cfg.owner@ ==> r == Err::<(Config, LaunchAction), FairLaunchError>(
            FairLaunchError::Unauthorized,
        ),
        sender@ == cfg.owner@ && cfg.launch_config is Some ==> r == Err::<
            (Config, LaunchAction),
            FairLaunchError,
        >(FairLaunchError::DuplicatePostInit),
        sender@ == cfg.owner@ && cfg.launch_config is None ==> r == if now
            > launch_config.phase1_start || launch_config.phase1_start > launch_config.phase2_start {
            Err::<(Config, LaunchAction), FairLaunchError>(FairLaunchError::InvalidLaunchConfig)
        } else {
            Ok::<(Config, LaunchAction), FairLaunchError>(
                (
                    Config { launch_config: Some(launch_config), ..cfg },
                    LaunchAction::TransferFrom {
                        token: cfg.token,
                        owner: sender,
                        recipient: contract_addr,
                        amount: launch_config.amount,
                    },
                ),
            )
        },
{
    if sender != cfg.owner {
        return Err(FairLaunchError::Unauthorized);
    }
    if cfg.launch_config.is_some() {
        return Err(FairLaunchError::DuplicatePostInit);
    }
    if now > launch_config.phase1_start || launch_config.phase1_start > launch_config.phase2_start {
        return Err(FairLaunchError::InvalidLaunchConfig);
    }
    let action = LaunchAction::TransferFrom {
        token: cfg.token.clone(),
        owner: sender,
        recipient: contract_addr,
        amount: launch_config.amount,
    };
    Ok((Config { launch_config: Some(launch_config), ..cfg }, action))
}

/// Deposits the one coin sent, as the PRISM fair launch does.
pub fn deposit(cfg: &Config, now: u64, funds: &Vec<Coin>, stored: Option<u128>, total_deposit: u128) -> (r:
    Result<(u128, u128), FairLaunchError>)
    ensures
        cfg.launch_config is None ==> r == Err::<(u128, u128), FairLaunchError>(
            FairLaunchError::Aborted,
        ),
        cfg.launch_config matches Some(l) && now >= l.phase2_start ==> r == Err::<
            (u128, u128),
            FairLaunchError,
        >(FairLaunchError::DepositPeriodOver),
        cfg.launch_config matches Some(l) && now < l.phase2_start && funds@.len() != 1 ==> r
            == Err::<(u128, u128), FairLaunchError>(FairLaunchError::DepositNotOneCoin),
        cfg.launch_config matches Some(l) && now < l.phase2_start && funds@.len() == 1 ==> {
            let coin = funds@[0];
            if coin.denom@ != cfg.base_denom@ || coin.amount == 0 {
                r == Err::<(u128, u128), FairLaunchError>(
                    FairLaunchError::DepositWrongCoin { base_denom: cfg.base_denom },
                )
            } else if pfl::or_zero(stored) + coin.amount > u128::MAX || total_deposit + coin.amount
                > u128::MAX {
                r == Err::<(u128, u128), FairLaunchError>(FairLaunchError::Aborted)
            } else {
                r == Ok::<(u128, u128), FairLaunchError>(
                    (
                        (pfl::or_zero(stored) + coin.amount) as u128,
                        (total_deposit + coin.amount) as u128,
                    ),
                )
            }
        },
{
    pfl::deposit(&to_fee_free(cfg), now, funds, stored, total_deposit)
}

/// A withdrawal of deposit: the depositor's new deposit, the new total and
/// the base coin sent.
#[derive(Clone, Debug, PartialEq, Eq)]
pub struct Withdrawal {
    pub deposit: u128,
    pub total_deposit: u128,
    pub action: LaunchAction,
}

/// Withdraws `amount` (all, where `None`) of the sender's deposit (`stored`
/// is the stored one) before phase 2 ends, with no fee and no limit but the
/// deposit.
pub fn withdraw(
    cfg: &Config,
    sender: String,
    now: u64,
    stored: Option<u128>,
    total_deposit: u128,
    amount: Option<u128>,
) -> (r: Result<Withdrawal, FairLaunchError>)
    ensures
        cfg.launch_config is None ==> r == Err::<Withdrawal, FairLaunchError>(FairLaunchError::Aborted),
        cfg.launch_config is Some ==> {
            let l = cfg.launch_config->Some_0;
            let cur = pfl::or_zero(stored);
            let w = pfl::withdraw_amount(cur, amount);
            if now >= l.phase2_end {
                r == Err::<Withdrawal, FairLaunchError>(FairLaunchError::WithdrawPeriodOver)
            } else if cur == 0 {
                r == Err::<Withdrawal, FairLaunchError>(FairLaunchError::NoFundsToWithdraw)
            } else if w > cur {
                r == Err::<Withdrawal, FairLaunchError>(
                    FairLaunchError::WithdrawMoreThanDeposit { deposit: cur as u128 },
                )
            } else if w == 0 {
                r == Err::<Withdrawal, FairLaunchError>(FairLaunchError::WithdrawZero)
            } else if w > total_deposit {
                r == Err::<Withdrawal, FairLaunchError>(FairLaunchError::Aborted)
            } else {
                r == Ok::<Withdrawal, FairLaunchError>(
                    Withdrawal {
                        deposit: (cur - w) as u128,
                        total_deposit: (total_deposit - w) as u128,
                        action: LaunchAction::SendNative {
                            denom: cfg.base_denom,
                            recipient: sender,
                            amount: w as u128,
                        },
                    },
                )
            }
        },
{
    let launch = match cfg.launch_config {
        Some(l) => l,
        None => return Err(FairLaunchError::Aborted),
    };
    if now >= launch.phase2_end {
        return Err(FairLaunchError::WithdrawPeriodOver);
    }
    let cur = match stored {
        Some(d) => d,
        None => 0,
    };
    if cur == 0 {
        return Err(FairLaunchError::NoFundsToWithdraw);
    }
    let w = match amount {
        None => cur,
        Some(a) => {
            if a > cur {
                return Err(FairLaunchError::WithdrawMoreThanDeposit { deposit: cur });
            }
            if a == 0 {
                return Err(FairLaunchError::WithdrawZero);
            }
            a
        },
    };
    if w > total_deposit {
        return Err(FairLaunchError::Aborted);
    }
    Ok(
        Withdrawal {
            deposit: cur - w,
            total_deposit: total_deposit - w,
            action: LaunchAction::SendNative {
                denom: cfg.base_denom.clone(),
                recipient: sender,
                amount: w,
            },
        },
    )
}

/// After phase 2, a depositor claims the launched tokens in proportion to
/// their deposit (`stored`, `None` where there is no record) of the total.
/// No claim is recorded: the deposit is then zero, so a second claim finds
/// no tokens.
pub fn withdraw_tokens(cfg: &Config, sender: String, now: u64, stored: Option<u128>, total_deposit: u128) -> (r:
    Result<(u128, LaunchAction), FairLaunchError>)
    ensures
        cfg.launch_config is None ==> r == Err::<(u128, LaunchAction), FairLaunchError>(
            FairLaunchError::Aborted,
        ),
        cfg.launch_config is Some ==> {
            let l = cfg.launch_config->Some_0;
            if now < l.phase2_end {
                r == Err::<(u128, LaunchAction), FairLaunchError>(
                    FairLaunchError::TokensNotYetWithdrawable,
                )
            } else if stored is None {
                r == Err::<(u128, LaunchAction), FairLaunchError>(FairLaunchError::DepositNotFound)
            } else if total_deposit == 0 || ratio_of(
                l.amount as int,
                stored->Some_0 as int,
                total_deposit as int,
            ) > u128::MAX {
                r == Err::<(u128, LaunchAction), FairLaunchError>(FairLaunchError::Aborted)
            } else if ratio_of(l.amount as int, stored->Some_0 as int, total_deposit as int) == 0 {
                r == Err::<(u128, LaunchAction), FairLaunchError>(
                    FairLaunchError::NoTokensToWithdraw,
                )
            } else {
                let amount = ratio_of(l.amount as int, stored->Some_0 as int, total_deposit as int)
                    as u128;
                r == Ok::<(u128, LaunchAction), FairLaunchError>(
                    (amount, LaunchAction::SendToken { token: cfg.token, recipient: sender, amount }),
                )
            }
        },
{
    pfl::withdraw_tokens(&to_fee_free(cfg), sender, now, stored, total_deposit, false)
}

/// A depositor's deposit (zero where there is none) and the total deposit.
pub fn query_deposit_info(stored: Option<u128>, total_deposit: u128) -> (r: (u128, u128))
    ensures
        r == ((pfl::or_zero(stored) as u128), total_deposit),
{
    let d = match stored {
        Some(d) => d,
        None => 0,
    };
    (d, total_deposit)
}

} // verus!
