//! Delegator rewards: the rewards a vault's delegations earn, in any native
//! coin, are swapped to LUNA, bonded and split into pLUNA and yLUNA, and
//! handed to the reward distribution.

use vstd::prelude::*;
use vstd::string::StringExecFns;

verus! {

/// The denomination the rewards are converted into.
pub open spec fn reward_denom() -> Seq<char> {
    "uluna"@
}

/// Why a delegator-rewards operation is rejected.
#[derive(Clone, Debug, PartialEq, Eq)]
pub enum DelegatorRewardsError {
    /// "Unauthorized"
    Unauthorized,
}

/// The delegator rewards' configuration.
#[derive(Clone, Debug, PartialEq, Eq)]
pub struct Config {
    pub owner: String,
    pub vault: String,
    pub yluna_token: String,
    pub pluna_token: String,
    pub reward_distribution: String,
}

/// A native coin.
#[derive(Clone, Debug, PartialEq, Eq)]
pub struct Coin {
    pub denom: String,
    pub amount: u128,
}

/// An outgoing message of the delegator rewards.
#[derive(Clone, Debug, PartialEq, Eq)]
pub enum RewardsAction {
    /// Swap `coin` for LUNA on the chain's market module.
    SwapToLuna { coin: Coin },
    /// Call this contract's (`contract`) hook that bonds the LUNA received.
    LunaToPylunaHook { contract: String },
    /// Bond `amount` LUNA with the vault `vault`, split into pLUNA and yLUNA.
    BondSplit { vault: String, amount: u128 },
    /// Call this contract's (`contract`) hook that hands out the pLUNA and
    /// yLUNA minted.
    DistributeMintedPylunaHook { contract: String },
    /// Transfer `amount` of the cw20 `token` to `recipient`.
    Transfer { token: String, recipient: String, amount: u128 },
    /// Ask the reward distribution `contract` to distribute its rewards.
    DistributeRewards { contract: String },
}

/// The configuration to store at instantiation.
pub fn instantiate(
    owner: String,
    vault: String,
    yluna_token: String,
    pluna_token: String,
    reward_distribution: String,
) -> (r: Config)
    ensures
        r == (Config { owner, vault, yluna_token, pluna_token, reward_distribution }),
{
    Config { owner, vault, yluna_token, pluna_token, reward_distribution }
}

/// Whether the coin is swapped to LUNA: it is not LUNA and the oracle rates it
/// (`quoted` are the denominations the oracle has an exchange rate for).
pub open spec fn swappable(coin: Coin, quoted: Seq<String>) -> bool {
    coin.denom@ != reward_denom() && exists|i: int| 0 <= i < quoted.len() && #[trigger] quoted[i]@ == coin.denom@
}

/// The swaps of the first `n` balances to LUNA, in order.
pub open spec fn swaps_prefix(balances: Seq<Coin>, quoted: Seq<String>, n: nat) -> Seq<RewardsAction>
    decreases n,
{
    if n == 0 {
        Seq::empty()
    } else {
        let rest = swaps_prefix(balances, quoted, (n - 1) as nat);
        if swappable(balances[n - 1], quoted) {
            rest.push(RewardsAction::SwapToLuna { coin: balances[n - 1] })
        } else {
            rest
        }
    }
}

fn is_quoted(denom: &String, quoted: &Vec<String>) -> (r: bool)
    ensures
        r == exists|i: int| 0 <= i < quoted@.len() && #[trigger] quoted@[i]@ == denom@,
{
    let mut i: usize = 0;
    while i < quoted.len()
        invariant
            0 <= i <= quoted@.len(),
            forall|j: int| 0 <= j < i ==> #[trigger] quoted@[j]@ != denom@,
        decreases quoted@.len() - i,
    {
        if quoted[i] == *denom {
            return true;
        }
        i = i + 1;
    }
    false
}

/// The vault hands over its delegation rewards: each native balance of this
/// contract (`contract_addr`) that is not LUNA and that the oracle rates
/// (`quoted`) is swapped to LUNA, then the hook that bonds the LUNA runs.
pub fn process_delegator_rewards(
    cfg: &Config,
    sender: &String,
    contract_addr: String,
    balances: &Vec<Coin>,
    quoted: &Vec<String>,
) -> (r: Result<Vec<RewardsAction>, DelegatorRewardsError>)
    ensures
        sender@ != cfg.vault@ ==> r == Err::<Vec<RewardsAction>, DelegatorRewardsError>(
            DelegatorRewardsError::Unauthorized,
        ),
        sender@ == cfg.vault@ ==> (r matches Ok(msgs) && msgs@ == swaps_prefix(
            balances@,
            quoted@,
            balances@.len(),
        ).push(RewardsAction::LunaToPylunaHook { contract: contract_addr })),
{
    if *sender != cfg.vault {
        return Err(DelegatorRewardsError::Unauthorized);
    }
    let luna = String::from_str("uluna");
    proof {
        reveal_strlit("uluna");
    }
    let mut msgs: Vec<RewardsAction> = Vec::new();
    let n = balances.len();
    let mut i: usize = 0;
    while i < n
        invariant
            n == balances@.len(),
            0 <= i <= n,
            luna@ == reward_denom(),
            msgs@ == swaps_prefix(balances@, quoted@, i as nat),
        decreases n - i,
    {
        let coin = &balances[i];
        if !(coin.denom == luna) && is_quoted(&coin.denom, quoted) {
            msgs.push(RewardsAction::SwapToLuna { coin: Coin { denom: coin.denom.clone(), amount: coin.amount } });
        }
        i = i + 1;
    }
    msgs.push(RewardsAction::LunaToPylunaHook { contract: contract_addr });
    Ok(msgs)
}

/// This contract's (`contract_addr`) own hook: bonds its whole LUNA balance
/// (`luna_balance`) with the vault, split into pLUNA and yLUNA, then runs the
/// hook that hands them out.
pub fn luna_to_pyluna_hook(cfg: &Config, sender: &String, contract_addr: String, luna_balance: u128) -> (r:
    Result<Vec<RewardsAction>, DelegatorRewardsError>)
    ensures
        sender@ != contract_addr@ ==> r == Err::<Vec<RewardsAction>, DelegatorRewardsError>(
            DelegatorRewardsError::Unauthorized,
        ),
        sender@ == contract_addr@ ==> (r matches Ok(msgs) && msgs@ == seq![
            RewardsAction::BondSplit { vault: cfg.vault, amount: luna_balance },
            RewardsAction::DistributeMintedPylunaHook { contract: contract_addr },
        ]),
{
    if *sender != contract_addr {
        return Err(DelegatorRewardsError::Unauthorized);
    }
    Ok(
        vec![
            RewardsAction::BondSplit { vault: cfg.vault.clone(), amount: luna_balance },
            RewardsAction::DistributeMintedPylunaHook { contract: contract_addr },
        ],
    )
}

/// This contract's (`contract_addr`) own hook: hands its whole pLUNA and
/// yLUNA balances to the reward distribution and has it distribute them.
pub fn distribute_minted_pyluna_hook(
    cfg: &Config,
    sender: &String,
    contract_addr: &String,
    pluna_balance: u128,
    yluna_balance: u128,
) -> (r: Result<Vec<RewardsAction>, DelegatorRewardsError>)
    ensures
        sender@ != contract_addr@ ==> r == Err::<Vec<RewardsAction>, DelegatorRewardsError>(
            DelegatorRewardsError::Unauthorized,
        ),
        sender@ == contract_addr@ ==> (r matches Ok(msgs) && msgs@ == seq![
            RewardsAction::Transfer {
                token: cfg.pluna_token,
                recipient: cfg.reward_distribution,
                amount: pluna_balance,
            },
            RewardsAction::Transfer {
                token: cfg.yluna_token,
                recipient: cfg.reward_distribution,
                amount: yluna_balance,
            },
            RewardsAction::DistributeRewards { contract: cfg.reward_distribution },
        ]),
{
    if *sender != *contract_addr {
        return Err(DelegatorRewardsError::Unauthorized);
    }
    Ok(
        vec![
            RewardsAction::Transfer {
                token: cfg.pluna_token.clone(),
                recipient: cfg.reward_distribution.clone(),
                amount: pluna_balance,
            },
            RewardsAction::Transfer {
                token: cfg.yluna_token.clone(),
                recipient: cfg.reward_distribution.clone(),
                amount: yluna_balance,
            },
            RewardsAction::DistributeRewards { contract: cfg.reward_distribution.clone() },
        ],
    )
}

/// The owner hands the contract to a new owner.
pub fn update_config(cfg: Config, sender: &String, owner: Option<String>) -> (r: Result<
    Config,
    DelegatorRewardsError,
>)
    ensures
        sender@ != cfg.owner@ ==> r == Err::<Config, DelegatorRewardsError>(
            DelegatorRewardsError::Unauthorized,
        ),
        sender@ == cfg.owner@ ==> r == Ok::<Config, DelegatorRewardsError>(
            match owner {
                Some(o) => Config { owner: o, ..cfg },
                None => cfg,
            },
        ),
{
    if *sender != cfg.owner {
        return Err(DelegatorRewardsError::Unauthorized);
    }
    let mut cfg = cfg;
    if let Some(o) = owner {
        cfg.owner = o;
    }
    Ok(cfg)
}

} // verus!
