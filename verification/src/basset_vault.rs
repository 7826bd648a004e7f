//! The bAsset vault: bonds a bAsset into its cAsset one for one, splits a
//! cAsset into its principal (pAsset) and yield (yAsset) tokens and merges
//! them back, and forwards the bAsset's rewards to the reward distribution.

use vstd::prelude::*;
use vstd::string::StringExecFns;

verus! {

/// Why a vault operation is rejected.
#[derive(Clone, Debug, PartialEq, Eq)]
pub enum ContractError {
    /// "Unauthorized"
    Unauthorized,
    /// "Invalid Cw20 msg"
    InvalidCw20Msg,
    /// "This message does not accept funds"
    NonPayable,
    /// The vault's tokens or reward distribution are not set up yet.
    NotInitialized,
    /// The reply of a token instantiation cannot be parsed.
    ParseReplyError,
    /// A reply with an id other than those of the three token instantiations.
    InvalidReplyId,
    /// An arithmetic step overflows, which aborts the transaction.
    Aborted,
}

/// The vault's configuration. The token addresses are empty until the tokens'
/// instantiations reply.
#[derive(Clone, Debug, PartialEq, Eq)]
pub struct Config {
    pub owner: String,
    pub asset_name: String,
    pub asset_contract: String,
    pub asset_reward_contract: String,
    pub asset_reward_denom: String,
    pub casset_contract: String,
    pub yasset_contract: String,
    pub passet_contract: String,
    pub reward_distribution_contract: String,
    pub initialized: bool,
    pub token_admin: String,
    pub token_code_id: u64,
}

/// The vault's state: the bAsset bonded and when rewards were last claimed.
#[derive(Clone, Copy, Debug, PartialEq, Eq)]
pub struct State {
    pub total_bond_amount: u128,
    pub last_index_modification: u64,
}

/// An outgoing message of the vault.
#[derive(Clone, Debug, PartialEq, Eq)]
pub enum VaultAction {
    /// Mint `amount` of the cw20 `token` for `recipient`.
    Mint { token: String, recipient: String, amount: u128 },
    /// Burn `amount` of the cw20 `token` that the vault holds.
    Burn { token: String, amount: u128 },
    /// Burn `amount` of the cw20 `token` from `owner` (by allowance).
    BurnFrom { token: String, owner: String, amount: u128 },
    /// Transfer `amount` of the cw20 `token` to `recipient`.
    Transfer { token: String, recipient: String, amount: u128 },
    /// Move `amount` of the cw20 `token` from `owner` to `recipient` (by
    /// allowance).
    TransferFrom { token: String, owner: String, recipient: String, amount: u128 },
    /// Claim the bAsset rewards of `contract` for `recipient`.
    ClaimRewards { contract: String, recipient: String },
    /// Ask the reward distribution `contract` to distribute its rewards.
    DistributeRewards { contract: String },
    /// Instantiate a cw20 token (6 decimals, the vault its minter, `admin` its
    /// admin) and reply with `reply_id`.
    InstantiateToken {
        code_id: u64,
        name: String,
        symbol: String,
        minter: String,
        admin: String,
        reply_id: u64,
    },
}

/// The placeholder of an address not set yet.
pub open spec fn unset() -> Seq<char> {
    Seq::empty()
}

/// `"Prism " + symbol + " Token"`, the name of the vault's token `symbol`.
pub open spec fn token_name(symbol: Seq<char>) -> Seq<char> {
    "Prism "@ + symbol + " Token"@
}

/// The name of the vault's token `symbol`.
fn make_token_name(symbol: &String) -> (r: String)
    ensures
        r@ == token_name(symbol@),
{
    let mut s = String::from_str("Prism ");
    s.append(symbol.as_str());
    s.append(" Token");
    s
}

/// The symbol `prefix` + the asset's name.
fn make_symbol(prefix: &str, asset_name: &String) -> (r: String)
    ensures
        r@ == prefix@ + asset_name@,
{
    let mut s = String::from_str(prefix);
    s.append(asset_name.as_str());
    s
}

/// The instantiation of the vault's token `prefix` + asset name, replying
/// with `reply_id`.
pub open spec fn token_instantiation(cfg: Config, prefix: Seq<char>, minter: String, reply_id: u64) -> (
    u64,
    Seq<char>,
    Seq<char>,
    Seq<char>,
    Seq<char>,
    u64,
) {
    (
        cfg.token_code_id,
        token_name(prefix + cfg.asset_name@),
        prefix + cfg.asset_name@,
        minter@,
        cfg.token_admin@,
        reply_id,
    )
}

/// Whether `a` instantiates the vault's token `prefix` + asset name.
pub open spec fn instantiates(a: VaultAction, cfg: Config, prefix: Seq<char>, minter: String, reply_id: u64) -> bool {
    match a {
        VaultAction::InstantiateToken { code_id, name, symbol, minter: m, admin, reply_id: id } => (
            code_id,
            name@,
            symbol@,
            m@,
            admin@,
            id,
        ) == token_instantiation(cfg, prefix, minter, reply_id),
        _ => false,
    }
}

/// Checks an instantiation (which takes no funds) and returns the
/// configuration and state to store, with the instantiation of the cAsset
/// token, the first of the vault's three tokens. The sender becomes the owner.
pub fn instantiate(
    sender: String,
    contract_addr: String,
    funds_sent: bool,
    asset_name: String,
    asset_contract: String,
    asset_reward_contract: String,
    asset_reward_denom: String,
    token_admin: String,
    token_code_id: u64,
    now: u64,
) -> (r: Result<(Config, State, VaultAction), ContractError>)
    ensures
        funds_sent ==> r == Err::<(Config, State, VaultAction), ContractError>(ContractError::NonPayable),
        !funds_sent ==> (r matches Ok((cfg, state, action)) && cfg == Config {
            owner: sender,
            asset_name,
            asset_contract,
            asset_reward_contract,
            asset_reward_denom,
            casset_contract: cfg.casset_contract,
            yasset_contract: cfg.yasset_contract,
            passet_contract: cfg.passet_contract,
            reward_distribution_contract: cfg.reward_distribution_contract,
            initialized: false,
            token_admin,
            token_code_id,
        } && cfg.casset_contract@ == unset() && cfg.yasset_contract@ == unset()
            && cfg.passet_contract@ == unset() && cfg.reward_distribution_contract@ == unset()
            && state == (State { total_bond_amount: 0, last_index_modification: now })
            && instantiates(action, cfg, "c"@, contract_addr, 0)),
{
    if funds_sent {
        return Err(ContractError::NonPayable);
    }
    let cfg = Config {
        owner: sender,
        asset_name,
        asset_contract,
        asset_reward_contract,
        asset_reward_denom,
        casset_contract: String::new(),
        yasset_contract: String::new(),
        passet_contract: String::new(),
        reward_distribution_contract: String::new(),
        initialized: false,
        token_admin,
        token_code_id,
    };
    let symbol = make_symbol("c", &cfg.asset_name);
    let name = make_token_name(&symbol);
    let action = VaultAction::InstantiateToken {
        code_id: cfg.token_code_id,
        name,
        symbol,
        minter: contract_addr,
        admin: cfg.token_admin.clone(),
        reply_id: 0,
    };
    Ok((cfg, State { total_bond_amount: 0, last_index_modification: now }, action))
}

/// The configuration, where the vault is set up.
pub fn assert_initialized(cfg: Config) -> (r: Result<Config, ContractError>)
    ensures
        r == if cfg.initialized {
            Ok::<Config, ContractError>(cfg)
        } else {
            Err::<Config, ContractError>(ContractError::NotInitialized)
        },
{
    if cfg.initialized {
        Ok(cfg)
    } else {
        Err(ContractError::NotInitialized)
    }
}

/// The state after `amount` more bAsset is bonded.
pub open spec fn bonded(state: State, amount: u128) -> State {
    State { total_bond_amount: (state.total_bond_amount + amount) as u128, ..state }
}

/// The state after `amount` bAsset is unbonded.
pub open spec fn unbonded(state: State, amount: u128) -> State {
    State { total_bond_amount: (state.total_bond_amount - amount) as u128, ..state }
}

/// Bonds `amount` bAsset received from `token` (the cw20 hook's sender
/// contract) for `sender`: mints as much cAsset for `sender`.
pub fn execute_bond(cfg: Config, state: State, token: &String, amount: u128, sender: String) -> (r:
    Result<(State, VaultAction), ContractError>)
    ensures
        !cfg.initialized ==> r == Err::<(State, VaultAction), ContractError>(ContractError::NotInitialized),
        cfg.initialized && token@ != cfg.asset_contract@ ==> r == Err::<(State, VaultAction), ContractError>(
            ContractError::Unauthorized,
        ),
        cfg.initialized && token@ == cfg.asset_contract@ ==> r == if state.total_bond_amount + amount
            > u128::MAX {
            Err::<(State, VaultAction), ContractError>(ContractError::Aborted)
        } else {
            Ok::<(State, VaultAction), ContractError>(
                (
                    bonded(state, amount),
                    VaultAction::Mint { token: cfg.casset_contract, recipient: sender, amount },
                ),
            )
        },
{
    let cfg = assert_initialized(cfg)?;
    if *token != cfg.asset_contract {
        return Err(ContractError::Unauthorized);
    }
    let action = VaultAction::Mint { token: cfg.casset_contract, recipient: sender, amount };
    let total = match state.total_bond_amount.checked_add(amount) {
        Some(t) => t,
        None => return Err(ContractError::Aborted),
    };
    Ok((State { total_bond_amount: total, ..state }, action))
}

/// Bonds `amount` bAsset received from `token` and splits it at once: the
/// cAsset is minted to the vault (`contract_addr`) and locked, and `sender`
/// gets as much yAsset and pAsset.
pub fn execute_bond_split(
    cfg: Config,
    state: State,
    contract_addr: String,
    token: &String,
    amount: u128,
    sender: String,
) -> (r: Result<(State, Vec<VaultAction>), ContractError>)
    ensures
        !cfg.initialized ==> r == Err::<(State, Vec<VaultAction>), ContractError>(
            ContractError::NotInitialized,
        ),
        cfg.initialized && token@ != cfg.asset_contract@ ==> r == Err::<
            (State, Vec<VaultAction>),
            ContractError,
        >(ContractError::Unauthorized),
        cfg.initialized && token@ == cfg.asset_contract@ && state.total_bond_amount + amount
            > u128::MAX ==> r == Err::<(State, Vec<VaultAction>), ContractError>(ContractError::Aborted),
        cfg.initialized && token@ == cfg.asset_contract@ && state.total_bond_amount + amount
            <= u128::MAX ==> (r matches Ok((st, actions)) && st == bonded(state, amount) && actions@ == seq![
            VaultAction::Mint { token: cfg.casset_contract, recipient: contract_addr, amount },
            VaultAction::Mint { token: cfg.yasset_contract, recipient: sender, amount },
            VaultAction::Mint { token: cfg.passet_contract, recipient: sender, amount },
        ]),
{
    let cfg = assert_initialized(cfg)?;
    if *token != cfg.asset_contract {
        return Err(ContractError::Unauthorized);
    }
    let actions = vec![
        VaultAction::Mint { token: cfg.casset_contract.clone(), recipient: contract_addr, amount },
        VaultAction::Mint { token: cfg.yasset_contract.clone(), recipient: sender.clone(), amount },
        VaultAction::Mint { token: cfg.passet_contract.clone(), recipient: sender, amount },
    ];
    let total = match state.total_bond_amount.checked_add(amount) {
        Some(t) => t,
        None => return Err(ContractError::Aborted),
    };
    Ok((State { total_bond_amount: total, ..state }, actions))
}

/// Unbonds `amount` cAsset received from `token` for `sender`: the cAsset is
/// burnt and `sender` gets as much bAsset back. The contract panics when more
/// than the bonded total is unbonded ("unbond amount can not be more than
/// stored total bonded amount"), so such an unbond from the cAsset contract is
/// not admitted here.
pub fn execute_unbond(cfg: Config, state: State, token: &String, amount: u128, sender: String) -> (r:
    Result<(State, Vec<VaultAction>), ContractError>)
    requires
        cfg.initialized && token@ == cfg.casset_contract@ ==> amount <= state.total_bond_amount,
    ensures
        !cfg.initialized ==> r == Err::<(State, Vec<VaultAction>), ContractError>(
            ContractError::NotInitialized,
        ),
        cfg.initialized && token@ != cfg.casset_contract@ ==> r == Err::<
            (State, Vec<VaultAction>),
            ContractError,
        >(ContractError::Unauthorized),
        cfg.initialized && token@ == cfg.casset_contract@ ==> (r matches Ok((st, actions))
            && st == unbonded(state, amount) && actions@ == seq![
            VaultAction::Burn { token: cfg.casset_contract, amount },
            VaultAction::Transfer { token: cfg.asset_contract, recipient: sender, amount },
        ]),
{
    let cfg = assert_initialized(cfg)?;
    if *token != cfg.casset_contract {
        return Err(ContractError::Unauthorized);
    }
    let actions = vec![
        VaultAction::Burn { token: cfg.casset_contract.clone(), amount },
        VaultAction::Transfer { token: cfg.asset_contract.clone(), recipient: sender, amount },
    ];
    Ok((State { total_bond_amount: state.total_bond_amount - amount, ..state }, actions))
}

/// Splits `amount` of the sender's cAsset: the cAsset moves to the vault
/// (`contract_addr`) and the sender gets as much yAsset and pAsset.
pub fn execute_split(cfg: Config, contract_addr: String, sender: String, amount: u128) -> (r: Result<
    Vec<VaultAction>,
    ContractError,
>)
    ensures
        !cfg.initialized ==> r == Err::<Vec<VaultAction>, ContractError>(ContractError::NotInitialized),
        cfg.initialized ==> (r matches Ok(actions) && actions@ == seq![
            VaultAction::TransferFrom {
                token: cfg.casset_contract,
                owner: sender,
                recipient: contract_addr,
                amount,
            },
            VaultAction::Mint { token: cfg.yasset_contract, recipient: sender, amount },
            VaultAction::Mint { token: cfg.passet_contract, recipient: sender, amount },
        ]),
{
    let cfg = assert_initialized(cfg)?;
    Ok(
        vec![
            VaultAction::TransferFrom {
                token: cfg.casset_contract,
                owner: sender.clone(),
                recipient: contract_addr,
                amount,
            },
            VaultAction::Mint { token: cfg.yasset_contract, recipient: sender.clone(), amount },
            VaultAction::Mint { token: cfg.passet_contract, recipient: sender, amount },
        ],
    )
}

/// Merges `amount` of the sender's yAsset and pAsset back into cAsset: both
/// are burnt and the vault sends the sender as much cAsset.
pub fn execute_merge(cfg: Config, sender: String, amount: u128) -> (r: Result<
    Vec<VaultAction>,
    ContractError,
>)
    ensures
        !cfg.initialized ==> r == Err::<Vec<VaultAction>, ContractError>(ContractError::NotInitialized),
        cfg.initialized ==> (r matches Ok(actions) && actions@ == seq![
            VaultAction::Transfer { token: cfg.casset_contract, recipient: sender, amount },
            VaultAction::BurnFrom { token: cfg.yasset_contract, owner: sender, amount },
            VaultAction::BurnFrom { token: cfg.passet_contract, owner: sender, amount },
        ]),
{
    let cfg = assert_initialized(cfg)?;
    Ok(
        vec![
            VaultAction::Transfer { token: cfg.casset_contract, recipient: sender.clone(), amount },
            VaultAction::BurnFrom { token: cfg.yasset_contract, owner: sender.clone(), amount },
            VaultAction::BurnFrom { token: cfg.passet_contract, owner: sender, amount },
        ],
    )
}

/// Claims the bAsset rewards for the reward distribution and has it
/// distribute them; records `now` as the last update.
pub fn execute_update_global(cfg: Config, state: State, now: u64) -> (r: Result<
    (State, Vec<VaultAction>),
    ContractError,
>)
    ensures
        !cfg.initialized ==> r == Err::<(State, Vec<VaultAction>), ContractError>(
            ContractError::NotInitialized,
        ),
        cfg.initialized ==> (r matches Ok((st, actions)) && st == (State {
            last_index_modification: now,
            ..state
        }) && actions@ == seq![
            VaultAction::ClaimRewards {
                contract: cfg.asset_reward_contract,
                recipient: cfg.reward_distribution_contract,
            },
            VaultAction::DistributeRewards { contract: cfg.reward_distribution_contract },
        ]),
{
    let cfg = assert_initialized(cfg)?;
    let actions = vec![
        VaultAction::ClaimRewards {
            contract: cfg.asset_reward_contract,
            recipient: cfg.reward_distribution_contract.clone(),
        },
        VaultAction::DistributeRewards { contract: cfg.reward_distribution_contract },
    ];
    Ok((State { last_index_modification: now, ..state }, actions))
}

/// The owner changes the owner or the reward distribution; the vault counts
/// as set up once a reward distribution is set.
pub fn execute_update_config(
    cfg: Config,
    sender: &String,
    owner: Option<String>,
    reward_distribution_contract: Option<String>,
) -> (r: Result<Config, ContractError>)
    ensures
        sender@ != cfg.owner@ ==> r == Err::<Config, ContractError>(ContractError::Unauthorized),
        sender@ == cfg.owner@ ==> (r matches Ok(c) && c == Config {
            owner: match owner {
                Some(o) => o,
                None => cfg.owner,
            },
            reward_distribution_contract: match reward_distribution_contract {
                Some(d) => d,
                None => cfg.reward_distribution_contract,
            },
            initialized: cfg.initialized || c.reward_distribution_contract@ != unset(),
            ..cfg
        }),
{
    if *sender != cfg.owner {
        return Err(ContractError::Unauthorized);
    }
    let mut cfg = cfg;
    if let Some(o) = owner {
        cfg.owner = o;
    }
    if let Some(d) = reward_distribution_contract {
        cfg.reward_distribution_contract = d;
    }
    let placeholder = String::new();
    if !cfg.initialized && !(cfg.reward_distribution_contract == placeholder) {
        cfg.initialized = true;
    }
    Ok(cfg)
}

/// Handles the reply of one of the three token instantiations, which run in
/// turn: cAsset (reply 0), pAsset (reply 1), yAsset (reply 2). `token_addr`
/// is the address the reply reports (`None` where the reply cannot be
/// parsed). The address is recorded and the next token, if any, instantiated.
pub fn set_token_address(cfg: Config, reply_id: u64, token_addr: Option<String>, contract_addr: String) -> (r:
    Result<(Config, Option<VaultAction>), ContractError>)
    ensures
        token_addr is None ==> r == Err::<(Config, Option<VaultAction>), ContractError>(
            ContractError::ParseReplyError,
        ),
        token_addr is Some && reply_id > 2 ==> r == Err::<(Config, Option<VaultAction>), ContractError>(
            ContractError::InvalidReplyId,
        ),
        token_addr is Some && reply_id == 0 ==> (r matches Ok((c, Some(a))) && c == (Config {
            casset_contract: token_addr->Some_0,
            ..cfg
        }) && instantiates(a, cfg, "p"@, contract_addr, 1)),
        token_addr is Some && reply_id == 1 ==> (r matches Ok((c, Some(a))) && c == (Config {
            passet_contract: token_addr->Some_0,
            ..cfg
        }) && instantiates(a, cfg, "y"@, contract_addr, 2)),
        token_addr is Some && reply_id == 2 ==> r == Ok::<(Config, Option<VaultAction>), ContractError>(
            (Config { yasset_contract: token_addr->Some_0, ..cfg }, None),
        ),
{
    let addr = match token_addr {
        Some(a) => a,
        None => return Err(ContractError::ParseReplyError),
    };
    let mut cfg = cfg;
    let (next_reply_id, prefix): (u64, &str) = if reply_id == 0 {
        cfg.casset_contract = addr;
        (1, "p")
    } else if reply_id == 1 {
        cfg.passet_contract = addr;
        (2, "y")
    } else if reply_id == 2 {
        cfg.yasset_contract = addr;
        return Ok((cfg, None));
    } else {
        return Err(ContractError::InvalidReplyId);
    };
    let symbol = make_symbol(prefix, &cfg.asset_name);
    let name = make_token_name(&symbol);
    let action = VaultAction::InstantiateToken {
        code_id: cfg.token_code_id,
        name,
        symbol,
        minter: contract_addr,
        admin: cfg.token_admin.clone(),
        reply_id: next_reply_id,
    };
    Ok((cfg, Some(action)))
}

/// Bonding and then unbonding the same amount leaves the vault's state as it
/// was.
pub proof fn lemma_bond_unbond_roundtrip(state: State, amount: u128)
    requires
        state.total_bond_amount + amount <= u128::MAX,
    ensures
        unbonded(bonded(state, amount), amount) == state,
{
}

} // verus!
