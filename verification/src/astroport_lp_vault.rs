//! The Astroport LP vault: LP tokens bonded into the Astroport generator are
//! represented by cLP, which splits into pLP and yLP and merges back. The
//! vault's LP and cLP supplies are tracked so that cLP is minted and burnt at
//! the vault's rate.

use crate::math::{decimal_ratio, decimal_sqrt, decimal_sqrt_of, from_ratio};
use vstd::prelude::*;

verus! {

/// Why a vault operation is rejected.
#[derive(Clone, Debug, PartialEq, Eq)]
pub enum ContractError {
    /// A bond of nothing.
    BadBondAmount,
    /// An unbond of nothing.
    BadUnbondAmount,
    /// "Unauthorized"
    Unauthorized,
    /// A checked subtraction underflowed (the contract reports an overflow error).
    Overflow,
    /// A multiplication or addition overflows, which aborts the transaction.
    Aborted,
}

/// The vault's configuration. `fee` is a decimal in atomic units.
#[derive(Clone, Debug, PartialEq, Eq)]
pub struct Config {
    pub owner: String,
    pub generator: String,
    pub factory: String,
    pub reward_dist: String,
    pub fee: u128,
}

/// The vault's LP position: the LP it holds in the generator, the cLP
/// outstanding, the pool's liquidity per LP token when last seen (a decimal in
/// atomic units), and the tokens involved.
#[derive(Clone, Debug, PartialEq, Eq)]
pub struct LpInfo {
    pub amt_lp: u128,
    pub amt_clp: u128,
    pub last_liquidity: u128,
    pub pair_contract: String,
    pub lp_contract: String,
    pub clp_contract: String,
    pub plp_contract: String,
    pub ylp_contract: String,
}

/// An outgoing message of the vault.
#[derive(Clone, Debug, PartialEq, Eq)]
pub enum LpVaultAction {
    /// Send `amount` of the LP token `lp_token` to the generator `generator`
    /// to deposit it.
    DepositLp { lp_token: String, generator: String, amount: u128 },
    /// Withdraw `amount` of the LP token `lp_token` from the generator
    /// `generator`.
    WithdrawLp { generator: String, lp_token: String, amount: u128 },
    /// Mint `amount` of the cw20 `token` for `recipient`.
    Mint { token: String, recipient: String, amount: u128 },
    /// Burn `amount` of the cw20 `token` from `owner` (by allowance).
    BurnFrom { token: String, owner: String, amount: u128 },
    /// Transfer `amount` of the cw20 `token` to `recipient`.
    Transfer { token: String, recipient: String, amount: u128 },
    /// Send `amount` of the LP token `lp_token` to the pair `pair` with the
    /// withdraw-liquidity hook, which burns it and returns the pooled assets.
    WithdrawLiquidity { lp_token: String, pair: String, amount: u128 },
    /// Pay `asset` to `recipient`: a cw20 transfer or a native coin send.
    PayReward { asset: Asset, recipient: String },
}

/// An asset kind: a cw20 token by contract address or a native coin by
/// denomination.
#[derive(Clone, Debug, PartialEq, Eq)]
pub enum AssetInfo {
    Token { contract_addr: String },
    NativeToken { denom: String },
}

/// An amount of an asset, such as a pending reward.
#[derive(Clone, Debug, PartialEq, Eq)]
pub struct Asset {
    pub info: AssetInfo,
    pub amount: u128,
}

/// A copy of an asset.
pub fn copy_asset(a: &Asset) -> (r: Asset)
    ensures
        r == *a,
{
    Asset {
        info: match &a.info {
            AssetInfo::Token { contract_addr } => AssetInfo::Token { contract_addr: contract_addr.clone() },
            AssetInfo::NativeToken { denom } => AssetInfo::NativeToken { denom: denom.clone() },
        },
        amount: a.amount,
    }
}

/// The payments of `rewards` to `recipient`, in order, leaving out the zero
/// amounts.
pub open spec fn reward_payments(rewards: Seq<Asset>, recipient: String) -> Seq<LpVaultAction>
    decreases rewards.len(),
{
    if rewards.len() == 0 {
        Seq::empty()
    } else {
        let prev = reward_payments(rewards.drop_last(), recipient);
        if rewards.last().amount > 0 {
            prev.push(LpVaultAction::PayReward { asset: rewards.last(), recipient })
        } else {
            prev
        }
    }
}

/// The messages of a reward update: where `lp_to_burn` is positive, the
/// withdrawal of that LP from the generator and its return to the pair for
/// the pooled assets; then the payment of each nonzero pending generator
/// reward and each nonzero pooled-asset reward to the reward distributor.
pub open spec fn reward_update(
    cfg: Config,
    lp_info: LpInfo,
    lp_to_burn: u128,
    gen_rewards: Seq<Asset>,
    amm_rewards: Seq<Asset>,
) -> Seq<LpVaultAction> {
    (if lp_to_burn > 0 {
        seq![
            LpVaultAction::WithdrawLp {
                generator: cfg.generator,
                lp_token: lp_info.lp_contract,
                amount: lp_to_burn,
            },
            LpVaultAction::WithdrawLiquidity {
                lp_token: lp_info.lp_contract,
                pair: lp_info.pair_contract,
                amount: lp_to_burn,
            },
        ]
    } else {
        Seq::empty()
    }) + reward_payments(gen_rewards, cfg.reward_dist) + reward_payments(amm_rewards, cfg.reward_dist)
}

proof fn lemma_reward_payments_len(rewards: Seq<Asset>, recipient: String)
    ensures
        reward_payments(rewards, recipient).len() <= rewards.len(),
    decreases rewards.len(),
{
    if rewards.len() > 0 {
        lemma_reward_payments_len(rewards.drop_last(), recipient);
    }
}

/// A reward update sends at most two messages for the LP to burn and one per
/// reward: with the generator's two rewards (ASTRO and the proxy reward) and
/// the pair's two assets, at most six.
pub proof fn lemma_reward_update_message_count(
    cfg: Config,
    lp_info: LpInfo,
    lp_to_burn: u128,
    gen_rewards: Seq<Asset>,
    amm_rewards: Seq<Asset>,
)
    ensures
        reward_update(cfg, lp_info, lp_to_burn, gen_rewards, amm_rewards).len() <= 2
            + gen_rewards.len() + amm_rewards.len(),
        gen_rewards.len() <= 2 && amm_rewards.len() <= 2 ==> reward_update(
            cfg,
            lp_info,
            lp_to_burn,
            gen_rewards,
            amm_rewards,
        ).len() <= 6,
{
    lemma_reward_payments_len(gen_rewards, cfg.reward_dist);
    lemma_reward_payments_len(amm_rewards, cfg.reward_dist);
}

fn push_reward_payments(msgs: &mut Vec<LpVaultAction>, rewards: &Vec<Asset>, recipient: &String)
    ensures
        final(msgs)@ == old(msgs)@ + reward_payments(rewards@, *recipient),
{
    let mut i: usize = 0;
    let ghost start = msgs@;
    while i < rewards.len()
        invariant
            0 <= i <= rewards@.len(),
            msgs@ == start + reward_payments(rewards@.take(i as int), *recipient),
        decreases rewards@.len() - i,
    {
        proof {
            assert(rewards@.take(i + 1).drop_last() =~= rewards@.take(i as int));
        }
        if rewards[i].amount > 0 {
            msgs.push(LpVaultAction::PayReward { asset: copy_asset(&rewards[i]), recipient: recipient.clone() });
        }
        proof {
            assert(start + reward_payments(rewards@.take(i as int), *recipient) + seq![
                LpVaultAction::PayReward { asset: rewards@[i as int], recipient: *recipient },
            ] =~= start + reward_payments(rewards@.take(i as int), *recipient).push(
                LpVaultAction::PayReward { asset: rewards@[i as int], recipient: *recipient },
            ));
        }
        i = i + 1;
    }
    proof {
        assert(rewards@.take(rewards@.len() as int) =~= rewards@);
    }
}

/// The messages of the reward update that precedes every bond and unbond (see
/// `reward_update`). `lp_to_burn` is the vault's LP that the drop in the
/// pool's liquidity per LP token since the last update makes over to the
/// rewards; `gen_rewards` are the generator's pending rewards and
/// `amm_rewards` what withdrawing that LP from the pool returns.
pub fn reward_update_actions(
    cfg: &Config,
    lp_info: &LpInfo,
    lp_to_burn: u128,
    gen_rewards: &Vec<Asset>,
    amm_rewards: &Vec<Asset>,
) -> (r: Vec<LpVaultAction>)
    ensures
        r@ == reward_update(*cfg, *lp_info, lp_to_burn, gen_rewards@, amm_rewards@),
{
    let mut msgs: Vec<LpVaultAction> = Vec::new();
    if lp_to_burn > 0 {
        msgs.push(
            LpVaultAction::WithdrawLp {
                generator: cfg.generator.clone(),
                lp_token: lp_info.lp_contract.clone(),
                amount: lp_to_burn,
            },
        );
        msgs.push(
            LpVaultAction::WithdrawLiquidity {
                lp_token: lp_info.lp_contract.clone(),
                pair: lp_info.pair_contract.clone(),
                amount: lp_to_burn,
            },
        );
    }
    let ghost head = msgs@;
    push_reward_payments(&mut msgs, gen_rewards, &cfg.reward_dist);
    push_reward_payments(&mut msgs, amm_rewards, &cfg.reward_dist);
    proof {
        assert(head =~= (if lp_to_burn > 0 {
            seq![
                LpVaultAction::WithdrawLp {
                    generator: cfg.generator,
                    lp_token: lp_info.lp_contract,
                    amount: lp_to_burn,
                },
                LpVaultAction::WithdrawLiquidity {
                    lp_token: lp_info.lp_contract,
                    pair: lp_info.pair_contract,
                    amount: lp_to_burn,
                },
            ]
        } else {
            Seq::empty()
        }));
    }
    msgs
}

/// The configuration and the empty LP position of a new vault for the LP token
/// `lp_contract` of the pair `pair_contract` (as the factory reports it); the
/// sender becomes the owner and no reward distributor is set yet.
pub fn instantiate(
    sender: String,
    generator: String,
    factory: String,
    fee: u128,
    lp_contract: String,
    pair_contract: String,
    clp_contract: String,
    plp_contract: String,
    ylp_contract: String,
) -> (r: (Config, LpInfo))
    ensures
        r.0 == (Config { owner: sender, generator, factory, reward_dist: r.0.reward_dist, fee }),
        r.0.reward_dist@ == Seq::<char>::empty(),
        r.1 == (LpInfo {
            amt_lp: 0,
            amt_clp: 0,
            last_liquidity: 0,
            pair_contract,
            lp_contract,
            clp_contract,
            plp_contract,
            ylp_contract,
        }),
{
    let cfg = Config { owner: sender, generator, factory, reward_dist: String::new(), fee };
    let info = LpInfo {
        amt_lp: 0,
        amt_clp: 0,
        last_liquidity: 0,
        pair_contract,
        lp_contract,
        clp_contract,
        plp_contract,
        ylp_contract,
    };
    (cfg, info)
}

/// The cLP that `amount` LP is worth at the vault's rate: `amount` times the
/// whole number of cLP per LP, or `amount` itself where the vault holds no LP.
pub open spec fn clp_for(amount: int, amt_lp: int, amt_clp: int) -> int {
    if amt_lp > 0 {
        amount * (amt_clp / amt_lp)
    } else {
        amount
    }
}

/// The pool's liquidity per LP token, a decimal in atomic units: the square
/// root of the product of the two reserves (as a decimal), divided by the LP
/// supply `total_share`. `None` where the computation aborts: the product does
/// not fit as a decimal, or there is no LP supply.
pub open spec fn liquidity_of(reserve0: u128, reserve1: u128, total_share: u128) -> Option<u128> {
    let product = decimal_ratio(reserve0 * reserve1, 1);
    if product > u128::MAX || total_share == 0 {
        None
    } else {
        Some((decimal_sqrt_of(product as u128) / total_share) as u128)
    }
}

/// Divides the square root `sqrt_atomics` (a decimal in atomic units) by the
/// LP supply `total_share`; a zero supply aborts.
pub fn liquidity_per_share(sqrt_atomics: u128, total_share: u128) -> (r: Result<u128, ContractError>)
    ensures
        total_share == 0 ==> r == Err::<u128, ContractError>(ContractError::Aborted),
        total_share != 0 ==> r == Ok::<u128, ContractError>(sqrt_atomics / total_share),
{
    if total_share == 0 {
        return Err(ContractError::Aborted);
    }
    Ok(sqrt_atomics / total_share)
}

/// The pool's liquidity per LP token from its reserves and LP supply (see
/// `liquidity_of`).
pub fn pool_liquidity(reserve0: u128, reserve1: u128, total_share: u128) -> (r: Result<u128, ContractError>)
    ensures
        r == match liquidity_of(reserve0, reserve1, total_share) {
            Some(l) => Ok::<u128, ContractError>(l),
            None => Err::<u128, ContractError>(ContractError::Aborted),
        },
{
    let product = match reserve0.checked_mul(reserve1) {
        Some(p) => p,
        None => {
            assert(decimal_ratio(reserve0 * reserve1, 1) > u128::MAX) by (nonlinear_arith)
                requires
                    reserve0 * reserve1 > u128::MAX,
            ;
            return Err(ContractError::Aborted);
        },
    };
    let atomics = match from_ratio(product, 1) {
        Some(a) => a,
        None => return Err(ContractError::Aborted),
    };
    let s = decimal_sqrt(atomics);
    liquidity_per_share(s, total_share)
}

/// Bonds `amount` LP received from `lp_token` for `sender`. `reserve0`,
/// `reserve1` and `total_share` are the pool's reserves and LP supply, from
/// which the reward update takes the liquidity per LP token to store
/// (`liquidity_of`); `lp_to_burn`, `gen_rewards` and `amm_rewards` are as for
/// `reward_update_actions`, whose messages come first. The LP goes to the
/// generator and `sender` gets cLP at the vault's rate after the reward update.
pub fn bond(
    cfg: &Config,
    lp_info: LpInfo,
    lp_token: String,
    sender: String,
    amount: u128,
    reserve0: u128,
    reserve1: u128,
    total_share: u128,
    lp_to_burn: u128,
    gen_rewards: &Vec<Asset>,
    amm_rewards: &Vec<Asset>,
) -> (r: Result<(LpInfo, Vec<LpVaultAction>), ContractError>)
    ensures
        amount == 0 ==> r == Err::<(LpInfo, Vec<LpVaultAction>), ContractError>(
            ContractError::BadBondAmount,
        ),
        amount != 0 && liquidity_of(reserve0, reserve1, total_share) is None ==> r == Err::<
            (LpInfo, Vec<LpVaultAction>),
            ContractError,
        >(ContractError::Aborted),
        amount != 0 && liquidity_of(reserve0, reserve1, total_share) is Some && lp_to_burn
            > lp_info.amt_lp ==> r == Err::<
            (LpInfo, Vec<LpVaultAction>),
            ContractError,
        >(ContractError::Overflow),
        amount != 0 && liquidity_of(reserve0, reserve1, total_share) is Some && lp_to_burn
            <= lp_info.amt_lp ==> {
            let liquidity = liquidity_of(reserve0, reserve1, total_share)->Some_0;
            let lp = lp_info.amt_lp - lp_to_burn;
            let clp = clp_for(amount as int, lp, lp_info.amt_clp as int);
            if clp > u128::MAX || lp + amount > u128::MAX || lp_info.amt_clp + clp > u128::MAX {
                r == Err::<(LpInfo, Vec<LpVaultAction>), ContractError>(ContractError::Aborted)
            } else {
                r matches Ok((info, msgs)) && info == (LpInfo {
                    amt_lp: (lp + amount) as u128,
                    amt_clp: (lp_info.amt_clp + clp) as u128,
                    last_liquidity: liquidity,
                    ..lp_info
                }) && msgs@ == reward_update(*cfg, lp_info, lp_to_burn, gen_rewards@, amm_rewards@)
                    + seq![
                    LpVaultAction::DepositLp { lp_token, generator: cfg.generator, amount },
                    LpVaultAction::Mint {
                        token: lp_info.clp_contract,
                        recipient: sender,
                        amount: clp as u128,
                    },
                ]
            }
        },
{
    if amount == 0 {
        return Err(ContractError::BadBondAmount);
    }
    let liquidity = pool_liquidity(reserve0, reserve1, total_share)?;
    let deposit = LpVaultAction::DepositLp { lp_token, generator: cfg.generator.clone(), amount };
    if lp_to_burn > lp_info.amt_lp {
        return Err(ContractError::Overflow);
    }
    let mut msgs = reward_update_actions(cfg, &lp_info, lp_to_burn, gen_rewards, amm_rewards);
    let lp = lp_info.amt_lp - lp_to_burn;
    let clp = if lp > 0 {
        match amount.checked_mul(lp_info.amt_clp / lp) {
            Some(v) => v,
            None => return Err(ContractError::Aborted),
        }
    } else {
        amount
    };
    let new_lp = match lp.checked_add(amount) {
        Some(v) => v,
        None => return Err(ContractError::Aborted),
    };
    let new_clp = match lp_info.amt_clp.checked_add(clp) {
        Some(v) => v,
        None => return Err(ContractError::Aborted),
    };
    let mint = LpVaultAction::Mint { token: lp_info.clp_contract.clone(), recipient: sender, amount: clp };
    let info = LpInfo { amt_lp: new_lp, amt_clp: new_clp, last_liquidity: liquidity, ..lp_info };
    msgs.push(deposit);
    msgs.push(mint);
    Ok((info, msgs))
}

/// Unbonds `amount` LP for `sender`. The reserves, the LP supply, `lp_to_burn`
/// and the rewards are as for `bond`; the reward update's messages come first.
/// The LP comes out of the generator to `sender`, who gives up cLP at the
/// vault's rate after the reward update.
pub fn unbond(
    cfg: &Config,
    lp_info: LpInfo,
    sender: String,
    amount: u128,
    reserve0: u128,
    reserve1: u128,
    total_share: u128,
    lp_to_burn: u128,
    gen_rewards: &Vec<Asset>,
    amm_rewards: &Vec<Asset>,
) -> (r: Result<(LpInfo, Vec<LpVaultAction>), ContractError>)
    ensures
        amount == 0 ==> r == Err::<(LpInfo, Vec<LpVaultAction>), ContractError>(
            ContractError::BadUnbondAmount,
        ),
        amount != 0 && liquidity_of(reserve0, reserve1, total_share) is None ==> r == Err::<
            (LpInfo, Vec<LpVaultAction>),
            ContractError,
        >(ContractError::Aborted),
        amount != 0 && liquidity_of(reserve0, reserve1, total_share) is Some && lp_to_burn
            > lp_info.amt_lp ==> r == Err::<
            (LpInfo, Vec<LpVaultAction>),
            ContractError,
        >(ContractError::Overflow),
        amount != 0 && liquidity_of(reserve0, reserve1, total_share) is Some && lp_to_burn
            <= lp_info.amt_lp ==> {
            let liquidity = liquidity_of(reserve0, reserve1, total_share)->Some_0;
            let lp = lp_info.amt_lp - lp_to_burn;
            let clp = clp_for(amount as int, lp, lp_info.amt_clp as int);
            if clp > u128::MAX {
                r == Err::<(LpInfo, Vec<LpVaultAction>), ContractError>(ContractError::Aborted)
            } else if amount > lp || clp > lp_info.amt_clp {
                r == Err::<(LpInfo, Vec<LpVaultAction>), ContractError>(ContractError::Overflow)
            } else {
                r matches Ok((info, msgs)) && info == (LpInfo {
                    amt_lp: (lp - amount) as u128,
                    amt_clp: (lp_info.amt_clp - clp) as u128,
                    last_liquidity: liquidity,
                    ..lp_info
                }) && msgs@ == reward_update(*cfg, lp_info, lp_to_burn, gen_rewards@, amm_rewards@)
                    + seq![
                    LpVaultAction::WithdrawLp {
                        generator: cfg.generator,
                        lp_token: lp_info.lp_contract,
                        amount,
                    },
                    LpVaultAction::BurnFrom {
                        token: lp_info.clp_contract,
                        owner: sender,
                        amount: clp as u128,
                    },
                    LpVaultAction::Transfer { token: lp_info.lp_contract, recipient: sender, amount },
                ]
            }
        },
{
    if amount == 0 {
        return Err(ContractError::BadUnbondAmount);
    }
    let liquidity = pool_liquidity(reserve0, reserve1, total_share)?;
    let withdraw = LpVaultAction::WithdrawLp {
        generator: cfg.generator.clone(),
        lp_token: lp_info.lp_contract.clone(),
        amount,
    };
    if lp_to_burn > lp_info.amt_lp {
        return Err(ContractError::Overflow);
    }
    let mut msgs = reward_update_actions(cfg, &lp_info, lp_to_burn, gen_rewards, amm_rewards);
    let lp = lp_info.amt_lp - lp_to_burn;
    let clp = if lp > 0 {
        match amount.checked_mul(lp_info.amt_clp / lp) {
            Some(v) => v,
            None => return Err(ContractError::Aborted),
        }
    } else {
        amount
    };
    if amount > lp || clp > lp_info.amt_clp {
        return Err(ContractError::Overflow);
    }
    let burn = LpVaultAction::BurnFrom {
        token: lp_info.clp_contract.clone(),
        owner: sender.clone(),
        amount: clp,
    };
    let transfer = LpVaultAction::Transfer {
        token: lp_info.lp_contract.clone(),
        recipient: sender,
        amount,
    };
    let info = LpInfo {
        amt_lp: lp - amount,
        amt_clp: lp_info.amt_clp - clp,
        last_liquidity: liquidity,
        ..lp_info
    };
    msgs.push(withdraw);
    msgs.push(burn);
    msgs.push(transfer);
    Ok((info, msgs))
}

/// Splits `amount` of the sender's cLP into as much pLP and yLP.
pub fn split(lp_info: &LpInfo, sender: String, amount: u128) -> (r: Vec<LpVaultAction>)
    ensures
        r@ == seq![
            LpVaultAction::BurnFrom { token: lp_info.clp_contract, owner: sender, amount },
            LpVaultAction::Mint { token: lp_info.plp_contract, recipient: sender, amount },
            LpVaultAction::Mint { token: lp_info.ylp_contract, recipient: sender, amount },
        ],
{
    vec![
        LpVaultAction::BurnFrom { token: lp_info.clp_contract.clone(), owner: sender.clone(), amount },
        LpVaultAction::Mint { token: lp_info.plp_contract.clone(), recipient: sender.clone(), amount },
        LpVaultAction::Mint { token: lp_info.ylp_contract.clone(), recipient: sender, amount },
    ]
}

/// Merges `amount` of the sender's pLP and yLP back into as much cLP.
pub fn merge(lp_info: &LpInfo, sender: String, amount: u128) -> (r: Vec<LpVaultAction>)
    ensures
        r@ == seq![
            LpVaultAction::BurnFrom { token: lp_info.plp_contract, owner: sender, amount },
            LpVaultAction::BurnFrom { token: lp_info.ylp_contract, owner: sender, amount },
            LpVaultAction::Mint { token: lp_info.clp_contract, recipient: sender, amount },
        ],
{
    vec![
        LpVaultAction::BurnFrom { token: lp_info.plp_contract.clone(), owner: sender.clone(), amount },
        LpVaultAction::BurnFrom { token: lp_info.ylp_contract.clone(), owner: sender.clone(), amount },
        LpVaultAction::Mint { token: lp_info.clp_contract.clone(), recipient: sender, amount },
    ]
}

/// The owner changes settings; each given one replaces the stored one.
pub fn update_config(
    cfg: Config,
    sender: &String,
    owner: Option<String>,
    generator: Option<String>,
    factory: Option<String>,
    reward_dist: Option<String>,
    fee: Option<u128>,
) -> (r: Result<Config, ContractError>)
    ensures
        sender@ != cfg.owner@ ==> r == Err::<Config, ContractError>(ContractError::Unauthorized),
        sender@ == cfg.owner@ ==> r == Ok::<Config, ContractError>(
            Config {
                owner: match owner {
                    Some(v) => v,
                    None => cfg.owner,
                },
                generator: match generator {
                    Some(v) => v,
                    None => cfg.generator,
                },
                factory: match factory {
                    Some(v) => v,
                    None => cfg.factory,
                },
                reward_dist: match reward_dist {
                    Some(v) => v,
                    None => cfg.reward_dist,
                },
                fee: match fee {
                    Some(v) => v,
                    None => cfg.fee,
                },
            },
        ),
{
    if *sender != cfg.owner {
        return Err(ContractError::Unauthorized);
    }
    let mut cfg = cfg;
    if let Some(v) = owner {
        cfg.owner = v;
    }
    if let Some(v) = generator {
        cfg.generator = v;
    }
    if let Some(v) = factory {
        cfg.factory = v;
    }
    if let Some(v) = reward_dist {
        cfg.reward_dist = v;
    }
    if let Some(v) = fee {
        cfg.fee = v;
    }
    Ok(cfg)
}

} // verus!
