//! Share-based staking of voting tokens: stakers hold shares of the xPRISM
//! the contract holds beyond poll deposits, so that rewards deposited to the
//! contract accrue to the stakers in proportion.

use crate::gov::{
    live_locks, max_locked, settled_polls, split_locks, Action, Config, GovError, PollStatus,
    VoterInfo,
};
use crate::math::{multiply_ratio, ratio_of};
use vstd::prelude::*;

verus! {

/// The staking state: the contract's address, the shares outstanding and the
/// xPRISM held as poll deposits.
#[derive(Clone, Debug, PartialEq, Eq)]
pub struct State {
    pub contract_addr: String,
    pub total_share: u128,
    pub total_deposit: u128,
}

/// A staker's shares and the votes that lock them, `(poll_id, vote)` in the
/// order they were cast.
#[derive(Clone, Debug, PartialEq, Eq)]
pub struct TokenManager {
    pub share: u128,
    pub locked_balance: Vec<(u64, VoterInfo)>,
}

/// The shares of a stored token manager, 0 where there is none.
pub open spec fn share_of(tm: Option<TokenManager>) -> int {
    match tm {
        Some(t) => t.share as int,
        None => 0,
    }
}

/// The votes of a stored token manager, none where there is no manager.
pub open spec fn locks_of(tm: Option<TokenManager>) -> Seq<(u64, VoterInfo)> {
    match tm {
        Some(t) => t.locked_balance@,
        None => Seq::empty(),
    }
}

/// The shares `amount` staked xPRISM buys when the contract's staked balance
/// (before the stake) is `total_balance`: one for one while nothing is staked,
/// else at the rate of shares outstanding to the staked balance.
pub open spec fn shares_for(amount: int, total_share: int, total_balance: int) -> int {
    if total_balance == 0 || total_share == 0 {
        amount
    } else {
        ratio_of(amount, total_share, total_balance)
    }
}

/// Staking buys shares at the rate of outstanding shares per staked token,
/// rounded down: where shares are outstanding and tokens staked, the shares
/// `s` bought for `amount` satisfy
/// `s * total_balance <= amount * total_share < (s + 1) * total_balance`, so
/// the new shares are worth no more than what was put in.
pub proof fn lemma_stake_share_price(amount: u128, total_share: u128, total_balance: u128)
    requires
        total_share > 0,
        total_balance > 0,
    ensures
        ({
            let s = shares_for(amount as int, total_share as int, total_balance as int);
            &&& s * total_balance <= amount * total_share < (s + 1) * total_balance
            &&& s * total_balance / (total_share as int) <= amount
        }),
{
    let s = shares_for(amount as int, total_share as int, total_balance as int);
    let a = amount as int;
    let ts = total_share as int;
    let tb = total_balance as int;
    assert(s == a * ts / tb);
    assert(s * tb <= a * ts < (s + 1) * tb) by (nonlinear_arith)
        requires
            s == a * ts / tb,
            tb > 0,
            a >= 0,
            ts >= 0,
    ;
    assert(s * tb / ts <= a) by (nonlinear_arith)
        requires
            s * tb <= a * ts,
            ts > 0,
            a >= 0,
            s >= 0,
            tb >= 0,
    {
        assert(s * tb / ts <= (a * ts) / ts) by {
            vstd::arithmetic::div_mod::lemma_div_is_ordered(s * tb, a * ts, ts);
        }
        vstd::arithmetic::div_mod::lemma_div_multiples_vanish(a, ts);
    }
}

/// Stakes `amount` xPRISM (received as a cw20 hook, already in
/// `token_balance`, the contract's xPRISM balance) for a staker whose stored
/// token manager is `token_manager`. Returns the state and manager to store
/// and the shares bought.
pub fn stake_voting_tokens(
    state: State,
    token_manager: Option<TokenManager>,
    amount: u128,
    token_balance: u128,
) -> (r: Result<(State, TokenManager, u128), GovError>)
    ensures
        amount == 0 ==> r == Err::<(State, TokenManager, u128), GovError>(
            GovError::InsufficientFunds,
        ),
        amount != 0 && state.total_deposit + amount > u128::MAX ==> r == Err::<
            (State, TokenManager, u128),
            GovError,
        >(GovError::Aborted),
        amount != 0 && state.total_deposit + amount <= u128::MAX && state.total_deposit + amount
            > token_balance ==> r == Err::<(State, TokenManager, u128), GovError>(
            GovError::Overflow,
        ),
        amount != 0 && state.total_deposit + amount <= token_balance ==> {
            let total_balance = token_balance - state.total_deposit - amount;
            let share = shares_for(amount as int, state.total_share as int, total_balance);
            if share > u128::MAX || share_of(token_manager) + share > u128::MAX
                || state.total_share + share > u128::MAX {
                r == Err::<(State, TokenManager, u128), GovError>(GovError::Aborted)
            } else {
                r matches Ok((st, tm, s)) && s == share && st == (State {
                    total_share: (state.total_share + share) as u128,
                    ..state
                }) && tm.share == share_of(token_manager) + share && tm.locked_balance@ == locks_of(
                    token_manager,
                )
            }
        },
        r is Ok && state.total_share > 0 && token_balance - state.total_deposit - amount > 0 ==> {
            let s = r->Ok_0.2;
            let tb = token_balance - state.total_deposit - amount;
            &&& s * tb <= amount * state.total_share < (s + 1) * tb
            &&& s * tb / (state.total_share as int) <= amount
        },
{
    if amount == 0 {
        return Err(GovError::InsufficientFunds);
    }
    let locked_plus = match state.total_deposit.checked_add(amount) {
        Some(v) => v,
        None => return Err(GovError::Aborted),
    };
    if locked_plus > token_balance {
        return Err(GovError::Overflow);
    }
    let total_balance = token_balance - locked_plus;
    let share = if total_balance == 0 || state.total_share == 0 {
        amount
    } else {
        match multiply_ratio(amount, state.total_share, total_balance) {
            Some(v) => v,
            None => return Err(GovError::Aborted),
        }
    };
    let mut tm = match token_manager {
        Some(t) => t,
        None => TokenManager { share: 0, locked_balance: Vec::new() },
    };
    tm.share = match tm.share.checked_add(share) {
        Some(v) => v,
        None => return Err(GovError::Aborted),
    };
    let total_share = match state.total_share.checked_add(share) {
        Some(v) => v,
        None => return Err(GovError::Aborted),
    };
    proof {
        if state.total_share > 0 && total_balance > 0 {
            lemma_stake_share_price(amount, state.total_share, total_balance);
        }
    }
    Ok((State { total_share, ..state }, tm, share))
}

/// A withdrawal of staked shares: the state and manager to store, the polls
/// whose vote records are to be deleted, and the transfer to the staker.
#[derive(Clone, Debug, PartialEq, Eq)]
pub struct ShareWithdrawal {
    pub state: State,
    pub token_manager: TokenManager,
    pub removed_polls: Vec<u64>,
    pub withdraw_share: u128,
    pub action: Action,
}

/// The shares a withdrawal of `amount` xPRISM (all that is not locked, where
/// `None`) takes, and the xPRISM it pays, where no step fails; `locked_share`
/// is the staker's locked balance in shares.
pub open spec fn withdraw_terms(
    amount: Option<u128>,
    user_share: int,
    locked_share: int,
    total_share: int,
    total_balance: int,
) -> Option<(int, int)> {
    match amount {
        Some(v) => {
            let s = ratio_of(v as int, total_share, total_balance);
            if total_balance == 0 || s > u128::MAX {
                None
            } else {
                Some((if s < 1 { 1 } else { s }, v as int))
            }
        },
        None => if locked_share > user_share || total_share == 0 || (user_share - locked_share)
            * total_balance > u128::MAX {
            None
        } else {
            let s = user_share - locked_share;
            Some((s, s * total_balance / total_share))
        },
    }
}

/// A withdrawal of everything unlocked pays the withdrawn shares' worth at
/// the current staked balance, rounded down: `paid * total_share <= shares *
/// total_balance < (paid + 1) * total_share`. A withdrawal of `v` xPRISM pays
/// `v` and takes at least one share, else the shares that `v` is worth
/// rounded down.
pub proof fn lemma_withdraw_pays_share_worth(
    amount: Option<u128>,
    user_share: int,
    locked_share: int,
    total_share: int,
    total_balance: int,
)
    requires
        total_share > 0,
        total_balance > 0,
    ensures
        withdraw_terms(amount, user_share, locked_share, total_share, total_balance) matches Some(
            (shares, paid),
        ) ==> match amount {
            None => paid * total_share <= shares * total_balance < (paid + 1) * total_share,
            Some(v) => paid == v && shares >= 1 && (shares == 1 || shares * total_balance <= v
                * total_share < (shares + 1) * total_balance),
        },
{
    match amount {
        None => {
            if withdraw_terms(amount, user_share, locked_share, total_share, total_balance) is Some {
                let s = user_share - locked_share;
                let paid = s * total_balance / total_share;
                assert(paid * total_share <= s * total_balance < (paid + 1) * total_share)
                    by (nonlinear_arith)
                    requires
                        paid == s * total_balance / total_share,
                        total_share > 0,
                ;
            }
        },
        Some(v) => {
            let s = ratio_of(v as int, total_share, total_balance);
            assert(s * total_balance <= v * total_share < (s + 1) * total_balance)
                by (nonlinear_arith)
                requires
                    s == v * total_share / total_balance,
                    total_balance > 0,
            ;
        },
    }
}

/// Withdraws `amount` xPRISM (all that is not locked, where `None`) of a
/// staker's shares to `sender`. `token_balance` is the contract's xPRISM
/// balance; `statuses[i]` is the status of the poll of the staker's `i`-th
/// vote; votes on polls no longer in progress are dropped. The staker's
/// locked balance (the largest vote on a poll in progress) stays staked.
pub fn withdraw_voting_tokens(
    cfg: &Config,
    state: State,
    sender: String,
    token_manager: Option<TokenManager>,
    statuses: &Vec<PollStatus>,
    amount: Option<u128>,
    token_balance: u128,
) -> (r: Result<ShareWithdrawal, GovError>)
    requires
        token_manager matches Some(t) ==> t.locked_balance@.len() == statuses@.len(),
    ensures
        token_manager is None ==> r == Err::<ShareWithdrawal, GovError>(GovError::NothingStaked),
        token_manager is Some && state.total_deposit > token_balance ==> r == Err::<
            ShareWithdrawal,
            GovError,
        >(GovError::Overflow),
        token_manager is Some && state.total_deposit <= token_balance ==> {
            let t = token_manager->Some_0;
            let total_balance = token_balance - state.total_deposit;
            let live = live_locks(t.locked_balance@, statuses@);
            let locked = max_locked(live);
            let locked_share = if total_balance == 0 {
                0
            } else {
                locked * state.total_share / total_balance
            };
            if total_balance == 0 || locked * state.total_share > u128::MAX {
                r == Err::<ShareWithdrawal, GovError>(GovError::Aborted)
            } else {
                match withdraw_terms(
                    amount,
                    t.share as int,
                    locked_share,
                    state.total_share as int,
                    total_balance,
                ) {
                    None => r == Err::<ShareWithdrawal, GovError>(GovError::Aborted),
                    Some((ws, wa)) => if locked_share + ws > u128::MAX {
                        r == Err::<ShareWithdrawal, GovError>(GovError::Aborted)
                    } else if locked_share + ws > t.share {
                        r == Err::<ShareWithdrawal, GovError>(GovError::WithdrawTooMany)
                    } else if ws > state.total_share || cfg.xprism_token is None {
                        r == Err::<ShareWithdrawal, GovError>(GovError::Aborted)
                    } else {
                        r matches Ok(w) && w.state == (State {
                            total_share: (state.total_share - ws) as u128,
                            ..state
                        }) && w.token_manager.share == t.share - ws
                            && w.token_manager.locked_balance@ == live && w.removed_polls@
                            == settled_polls(t.locked_balance@, statuses@) && w.withdraw_share
                            == ws && w.action == (Action::Transfer {
                            token: cfg.xprism_token->Some_0,
                            recipient: sender,
                            amount: wa as u128,
                        })
                    },
                }
            }
        },
        r is Ok ==> {
            let w = r->Ok_0;
            let tb = token_balance - state.total_deposit;
            w.action matches Action::Transfer { amount: paid, .. } && match amount {
                None => paid * state.total_share <= w.withdraw_share * tb < (paid + 1)
                    * state.total_share,
                Some(v) => paid == v && w.withdraw_share >= 1 && (w.withdraw_share == 1
                    || w.withdraw_share * tb <= v * state.total_share < (w.withdraw_share + 1)
                    * tb),
            }
        },
{
    let tm = match token_manager {
        Some(t) => t,
        None => return Err(GovError::NothingStaked),
    };
    let total_share = state.total_share;
    if state.total_deposit > token_balance {
        return Err(GovError::Overflow);
    }
    let total_balance = token_balance - state.total_deposit;
    let (kept, locked, removed) = split_locks(&tm.locked_balance, statuses);
    if total_balance == 0 {
        return Err(GovError::Aborted);
    }
    let locked_share = match locked.checked_mul(total_share) {
        Some(v) => v / total_balance,
        None => return Err(GovError::Aborted),
    };
    let user_share = tm.share;
    let (withdraw_share, withdraw_amount): (u128, u128) = match amount {
        Some(v) => {
            let s = match multiply_ratio(v, total_share, total_balance) {
                Some(s) => s,
                None => return Err(GovError::Aborted),
            };
            (if s < 1 {
                1
            } else {
                s
            }, v)
        },
        None => {
            if locked_share > user_share || total_share == 0 {
                return Err(GovError::Aborted);
            }
            let s = user_share - locked_share;
            let paid = match s.checked_mul(total_balance) {
                Some(p) => p / total_share,
                None => return Err(GovError::Aborted),
            };
            (s, paid)
        },
    };
    let claimed = match locked_share.checked_add(withdraw_share) {
        Some(c) => c,
        None => return Err(GovError::Aborted),
    };
    if claimed > user_share {
        return Err(GovError::WithdrawTooMany);
    }
    if withdraw_share > total_share {
        return Err(GovError::Aborted);
    }
    let token = match &cfg.xprism_token {
        Some(t) => t.clone(),
        None => return Err(GovError::Aborted),
    };
    proof {
        if total_share > 0 {
            lemma_withdraw_pays_share_worth(
                amount,
                user_share as int,
                locked_share as int,
                total_share as int,
                total_balance as int,
            );
        }
    }
    Ok(
        ShareWithdrawal {
            state: State { total_share: total_share - withdraw_share, ..state },
            token_manager: TokenManager { share: user_share - withdraw_share, locked_balance: kept },
            removed_polls: removed,
            withdraw_share,
            action: Action::Transfer { token, recipient: sender, amount: withdraw_amount },
        },
    )
}

/// A staker's xPRISM (their shares' worth of the staked balance), shares and
/// votes still locking them (`statuses[i]` is the status of the poll of the
/// staker's `i`-th vote). `token_balance` is the contract's xPRISM balance.
pub fn query_staker(
    state: &State,
    token_manager: Option<TokenManager>,
    statuses: &Vec<PollStatus>,
    token_balance: u128,
) -> (r: Result<(u128, u128, Vec<(u64, VoterInfo)>), GovError>)
    requires
        locks_of(token_manager).len() == statuses@.len(),
    ensures
        state.total_deposit > token_balance ==> r == Err::<
            (u128, u128, Vec<(u64, VoterInfo)>),
            GovError,
        >(GovError::Overflow),
        state.total_deposit <= token_balance ==> {
            let total_balance = token_balance - state.total_deposit;
            let value = if state.total_share == 0 {
                0
            } else {
                ratio_of(share_of(token_manager), total_balance, state.total_share as int)
            };
            if value > u128::MAX {
                r == Err::<(u128, u128, Vec<(u64, VoterInfo)>), GovError>(GovError::Aborted)
            } else {
                r matches Ok((b, s, locks)) && b == value && s == share_of(token_manager)
                    && locks@ == live_locks(locks_of(token_manager), statuses@)
            }
        },
{
    let tm = match token_manager {
        Some(t) => t,
        None => TokenManager { share: 0, locked_balance: Vec::new() },
    };
    let (kept, _locked, _removed) = split_locks(&tm.locked_balance, statuses);
    if state.total_deposit > token_balance {
        return Err(GovError::Overflow);
    }
    let total_balance = token_balance - state.total_deposit;
    let value = if state.total_share != 0 {
        match multiply_ratio(tm.share, total_balance, state.total_share) {
            Some(v) => v,
            None => return Err(GovError::Aborted),
        }
    } else {
        0
    };
    Ok((value, tm.share, kept))
}

} // verus!
