//! The collector: converts assets into a destination asset along the cheapest
//! known route (a PrismSwap pair, two PrismSwap hops through PRISM, or an
//! Astroport pair to the base coin followed by a hook that swaps the base
//! coin received) and sends the result to a receiver; `distribute` converts
//! the collector's own balances into PRISM for the distribution contract.

use crate::limit_order::{sorted_concat, sorted_key};
use vstd::prelude::*;
use vstd::slice::slice_to_vec;
use vstd::utf8::encode_utf8;

verus! {

/// An asset kind: a native coin by denomination or a cw20 token by address.
#[derive(Clone, Debug, PartialEq, Eq)]
pub enum AssetInfo {
    Native(String),
    Cw20(String),
}

/// An amount of an asset.
#[derive(Clone, Debug, PartialEq, Eq)]
pub struct Asset {
    pub info: AssetInfo,
    pub amount: u128,
}

/// A coin sent along with a message.
#[derive(Clone, Debug, PartialEq, Eq)]
pub struct Coin {
    pub denom: String,
    pub amount: u128,
}

/// Why a collector operation is rejected.
#[derive(Clone, Debug, PartialEq, Eq)]
pub enum ContractError {
    /// "Unauthorized"
    Unauthorized,
    /// "Native token balance mismatch between the argument and the transferred"
    NativeBalanceMismatch,
    /// "Missing route for: {asset} -> {dest_asset}"
    MissingRoute { asset: AssetInfo, dest_asset: AssetInfo },
    /// "DuplicateAssets"
    DuplicateAssets,
    /// "LogicError: need_hook set inside base_swap_hook, should not happen"
    HookInsideHook,
    /// A checked subtraction underflowed (the contract reports an overflow error).
    Overflow,
}

/// The collector's configuration.
#[derive(Clone, Debug, PartialEq, Eq)]
pub struct Config {
    pub distribution_contract: String,
    pub astroport_factory: String,
    pub prismswap_factory: String,
    pub prismswap_router: String,
    pub prism_token: String,
    pub base_denom: String,
}

/// The configuration stored before the router was added.
#[derive(Clone, Debug, PartialEq, Eq)]
pub struct LegacyConfig {
    pub distribution_contract: String,
    pub astroport_factory: String,
    pub prismswap_factory: String,
    pub prism_token: String,
    pub base_denom: String,
}

/// How an asset is swapped into the destination asset.
#[derive(Clone, Debug, PartialEq, Eq)]
pub enum SwapRoute {
    /// On the PrismSwap pair of the asset and the destination.
    PrismSwapDirect(String),
    /// Through the PrismSwap router: to PRISM on the first pair, then to the
    /// destination on the second.
    PrismSwapRouter(String, String),
    /// To the base coin on the Astroport pair; a hook then swaps the base coin.
    AstroportToBase(String),
}

/// The pairs known for swapping an asset into a destination, as the factories
/// answer: the PrismSwap pair of the asset and the destination, the PrismSwap
/// pair of the asset and PRISM, the PrismSwap pair of the destination and
/// PRISM, and the Astroport pair of the asset and the base coin.
#[derive(Clone, Debug, PartialEq, Eq)]
pub struct PairLookups {
    pub prismswap_direct: Option<String>,
    pub prismswap_to_prism: Option<String>,
    pub prismswap_from_prism: Option<String>,
    pub astroport_to_base: Option<String>,
}

/// An outgoing message of the collector.
#[derive(Clone, Debug, PartialEq, Eq)]
pub enum CollectorAction {
    /// Move `amount` of the cw20 `token` from `owner` to `recipient` (by
    /// allowance).
    TransferFrom { token: String, owner: String, recipient: String, amount: u128 },
    /// Send `asset` to `recipient` (a cw20 transfer or a bank send).
    Transfer { asset: Asset, recipient: String },
    /// Swap `offer` on the PrismSwap pair `pair`, the return to `to`.
    PrismSwap { pair: String, offer: Asset, to: String },
    /// Swap `offer` through the PrismSwap router `router` in two hops,
    /// `offer` to `via` to `ask`, the return to `to`.
    RouterSwap { router: String, offer: Asset, via: AssetInfo, ask: AssetInfo, to: String },
    /// Swap `offer` on the Astroport pair `pair` with the largest slippage the
    /// pair allows, the return to `to`.
    AstroSwap { pair: String, offer: Asset, to: String },
    /// Call the collector's own base-swap hook, which swaps the base coin
    /// received beyond `prev_base_balance` into `dest` for `receiver`.
    BaseSwapHook { contract: String, receiver: String, prev_base_balance: u128, dest: AssetInfo },
}

impl CollectorAction {
    /// A copy of the message.
    pub fn clone_action(&self) -> (r: CollectorAction)
        ensures
            r == *self,
    {
        match self {
            CollectorAction::TransferFrom { token, owner, recipient, amount } => CollectorAction::TransferFrom {
                token: token.clone(),
                owner: owner.clone(),
                recipient: recipient.clone(),
                amount: *amount,
            },
            CollectorAction::Transfer { asset, recipient } => CollectorAction::Transfer {
                asset: copy_asset(asset),
                recipient: recipient.clone(),
            },
            CollectorAction::PrismSwap { pair, offer, to } => CollectorAction::PrismSwap {
                pair: pair.clone(),
                offer: copy_asset(offer),
                to: to.clone(),
            },
            CollectorAction::RouterSwap { router, offer, via, ask, to } => CollectorAction::RouterSwap {
                router: router.clone(),
                offer: copy_asset(offer),
                via: copy_info(via),
                ask: copy_info(ask),
                to: to.clone(),
            },
            CollectorAction::AstroSwap { pair, offer, to } => CollectorAction::AstroSwap {
                pair: pair.clone(),
                offer: copy_asset(offer),
                to: to.clone(),
            },
            CollectorAction::BaseSwapHook { contract, receiver, prev_base_balance, dest } => CollectorAction::BaseSwapHook {
                contract: contract.clone(),
                receiver: receiver.clone(),
                prev_base_balance: *prev_base_balance,
                dest: copy_info(dest),
            },
        }
    }
}

/// Whether two asset kinds are the same.
pub open spec fn same_info(a: AssetInfo, b: AssetInfo) -> bool {
    match (a, b) {
        (AssetInfo::Native(x), AssetInfo::Native(y)) => x@ == y@,
        (AssetInfo::Cw20(x), AssetInfo::Cw20(y)) => x@ == y@,
        _ => false,
    }
}

/// Whether two asset kinds are the same.
pub fn info_equal(a: &AssetInfo, b: &AssetInfo) -> (r: bool)
    ensures
        r == same_info(*a, *b),
{
    match (a, b) {
        (AssetInfo::Native(x), AssetInfo::Native(y)) => *x == *y,
        (AssetInfo::Cw20(x), AssetInfo::Cw20(y)) => *x == *y,
        _ => false,
    }
}

/// A copy of an asset kind.
pub fn copy_info(a: &AssetInfo) -> (r: AssetInfo)
    ensures
        r == *a,
{
    match a {
        AssetInfo::Native(d) => AssetInfo::Native(d.clone()),
        AssetInfo::Cw20(c) => AssetInfo::Cw20(c.clone()),
    }
}

/// A copy of an asset.
pub fn copy_asset(a: &Asset) -> (r: Asset)
    ensures
        r == *a,
{
    Asset { info: copy_info(&a.info), amount: a.amount }
}

/// The configuration to store at instantiation.
pub fn instantiate(
    distribution_contract: String,
    astroport_factory: String,
    prismswap_factory: String,
    prismswap_router: String,
    prism_token: String,
    base_denom: String,
) -> (r: Config)
    ensures
        r == (Config {
            distribution_contract,
            astroport_factory,
            prismswap_factory,
            prismswap_router,
            prism_token,
            base_denom,
        }),
{
    Config {
        distribution_contract,
        astroport_factory,
        prismswap_factory,
        prismswap_router,
        prism_token,
        base_denom,
    }
}

/// The configuration after a migration that adds the router.
pub fn migrate_config(legacy: LegacyConfig, prismswap_router: String) -> (r: Config)
    ensures
        r == (Config {
            distribution_contract: legacy.distribution_contract,
            astroport_factory: legacy.astroport_factory,
            prismswap_factory: legacy.prismswap_factory,
            prismswap_router,
            prism_token: legacy.prism_token,
            base_denom: legacy.base_denom,
        }),
{
    Config {
        distribution_contract: legacy.distribution_contract,
        astroport_factory: legacy.astroport_factory,
        prismswap_factory: legacy.prismswap_factory,
        prismswap_router,
        prism_token: legacy.prism_token,
        base_denom: legacy.base_denom,
    }
}

/// The route for swapping an asset into a destination, given the pairs known:
/// a direct PrismSwap pair first; else, where the asset has a PrismSwap pair
/// with PRISM, two hops through PRISM if the destination has one too (and no
/// route otherwise); else an Astroport pair to the base coin.
pub open spec fn swap_route(l: PairLookups) -> Option<SwapRoute> {
    match l.prismswap_direct {
        Some(p) => Some(SwapRoute::PrismSwapDirect(p)),
        None => match l.prismswap_to_prism {
            Some(p1) => match l.prismswap_from_prism {
                Some(p2) => Some(SwapRoute::PrismSwapRouter(p1, p2)),
                None => None,
            },
            None => match l.astroport_to_base {
                Some(p) => Some(SwapRoute::AstroportToBase(p)),
                None => None,
            },
        },
    }
}

/// Picks the route for swapping an asset into a destination.
pub fn get_swap_route(lookups: &PairLookups) -> (r: Option<SwapRoute>)
    ensures
        r == swap_route(*lookups),
{
    match &lookups.prismswap_direct {
        Some(p) => Some(SwapRoute::PrismSwapDirect(p.clone())),
        None => match &lookups.prismswap_to_prism {
            Some(p1) => match &lookups.prismswap_from_prism {
                Some(p2) => Some(SwapRoute::PrismSwapRouter(p1.clone(), p2.clone())),
                None => None,
            },
            None => match &lookups.astroport_to_base {
                Some(p) => Some(SwapRoute::AstroportToBase(p.clone())),
                None => None,
            },
        },
    }
}

/// The message that swaps `offer_asset` on the PrismSwap pair `pair_addr`, the
/// return going to `receiver`.
pub fn get_prism_direct_swap_msg(pair_addr: &String, offer_asset: &Asset, receiver: &String) -> (r:
    CollectorAction)
    ensures
        r == (CollectorAction::PrismSwap { pair: *pair_addr, offer: *offer_asset, to: *receiver }),
{
    CollectorAction::PrismSwap {
        pair: pair_addr.clone(),
        offer: copy_asset(offer_asset),
        to: receiver.clone(),
    }
}

/// The message that swaps `offer_asset` through the PrismSwap router in two
/// hops, into `base_asset_info` and then into `ask_asset_info`, the return
/// going to `receiver`.
pub fn get_prism_router_swap_msg(
    cfg: &Config,
    offer_asset: &Asset,
    ask_asset_info: &AssetInfo,
    base_asset_info: &AssetInfo,
    receiver: &String,
) -> (r: CollectorAction)
    ensures
        r == (CollectorAction::RouterSwap {
            router: cfg.prismswap_router,
            offer: *offer_asset,
            via: *base_asset_info,
            ask: *ask_asset_info,
            to: *receiver,
        }),
{
    CollectorAction::RouterSwap {
        router: cfg.prismswap_router.clone(),
        offer: copy_asset(offer_asset),
        via: copy_info(base_asset_info),
        ask: copy_info(ask_asset_info),
        to: receiver.clone(),
    }
}

/// The message that swaps `offer_asset` on the Astroport pair `pair_addr`
/// (with the largest slippage the pair allows), the return going to
/// `receiver`.
pub fn get_astro_direct_swap_msg(pair_addr: &String, offer_asset: &Asset, receiver: &String) -> (r:
    CollectorAction)
    ensures
        r == (CollectorAction::AstroSwap { pair: *pair_addr, offer: *offer_asset, to: *receiver }),
{
    CollectorAction::AstroSwap {
        pair: pair_addr.clone(),
        offer: copy_asset(offer_asset),
        to: receiver.clone(),
    }
}

/// Whether two of the assets are of the same kind.
pub open spec fn has_duplicate(assets: Seq<Asset>) -> bool {
    exists|i: int, j: int|
        0 <= i < j < assets.len() && #[trigger] same_info(assets[i].info, assets[j].info)
}

/// Checks that no two of the assets are of the same kind.
fn check_duplicates(assets: &Vec<Asset>) -> (r: bool)
    ensures
        r == has_duplicate(assets@),
{
    let n = assets.len();
    let mut j: usize = 0;
    while j < n
        invariant
            n == assets@.len(),
            0 <= j <= n,
            forall|a: int, b: int|
                0 <= a < b < j ==> !#[trigger] same_info(assets@[a].info, assets@[b].info),
        decreases n - j,
    {
        let mut i: usize = 0;
        while i < j
            invariant
                n == assets@.len(),
                0 <= i <= j < n,
                forall|a: int, b: int|
                    0 <= a < b < j ==> !#[trigger] same_info(assets@[a].info, assets@[b].info),
                forall|a: int| 0 <= a < i ==> !#[trigger] same_info(assets@[a].info, assets@[j as int].info),
            decreases j - i,
        {
            if info_equal(&assets[i].info, &assets[j].info) {
                return true;
            }
            i = i + 1;
        }
        j = j + 1;
    }
    false
}

/// The message that moves one asset towards the destination, and whether it
/// needs the base-swap hook: nothing for a zero amount; a transfer to the
/// receiver for the destination asset itself; else a swap along its route,
/// an Astroport swap sending the base coin to the collector itself.
pub open spec fn swap_step(
    cfg: Config,
    contract: String,
    asset: Asset,
    lookups: PairLookups,
    receiver: String,
    dest: AssetInfo,
) -> Result<(Option<CollectorAction>, bool), ContractError> {
    if asset.amount == 0 {
        Ok((None, false))
    } else if same_info(asset.info, dest) {
        Ok((Some(CollectorAction::Transfer { asset, recipient: receiver }), false))
    } else {
        match swap_route(lookups) {
            Some(SwapRoute::PrismSwapDirect(pair)) => Ok(
                (Some(CollectorAction::PrismSwap { pair, offer: asset, to: receiver }), false),
            ),
            Some(SwapRoute::PrismSwapRouter(_p1, _p2)) => Ok(
                (
                    Some(
                        CollectorAction::RouterSwap {
                            router: cfg.prismswap_router,
                            offer: asset,
                            via: AssetInfo::Cw20(cfg.prism_token),
                            ask: dest,
                            to: receiver,
                        },
                    ),
                    false,
                ),
            ),
            Some(SwapRoute::AstroportToBase(pair)) => Ok(
                (Some(CollectorAction::AstroSwap { pair, offer: asset, to: contract }), true),
            ),
            None => Err(ContractError::MissingRoute { asset: asset.info, dest_asset: dest }),
        }
    }
}

/// The messages for the first `n` assets, in order, and whether any needs the
/// base-swap hook; the first asset without a route fails them.
pub open spec fn swap_prefix(
    cfg: Config,
    contract: String,
    assets: Seq<Asset>,
    lookups: Seq<PairLookups>,
    receiver: String,
    dest: AssetInfo,
    n: nat,
) -> Result<(Seq<CollectorAction>, bool), ContractError>
    decreases n,
{
    if n == 0 {
        Ok((Seq::empty(), false))
    } else {
        match swap_prefix(cfg, contract, assets, lookups, receiver, dest, (n - 1) as nat) {
            Err(e) => Err(e),
            Ok((msgs, hook)) => match swap_step(
                cfg,
                contract,
                assets[n - 1],
                lookups[n - 1],
                receiver,
                dest,
            ) {
                Err(e) => Err(e),
                Ok((m, h)) => Ok(
                    (
                        match m {
                            Some(a) => msgs.push(a),
                            None => msgs,
                        },
                        hook || h,
                    ),
                ),
            },
        }
    }
}

/// The messages that swap `assets` into `dest` for `receiver`, and whether
/// the base-swap hook is needed; `lookups[i]` are the pairs known for
/// `assets[i]`. Two assets of the same kind are refused.
pub open spec fn swap_msgs(
    cfg: Config,
    contract: String,
    assets: Seq<Asset>,
    lookups: Seq<PairLookups>,
    receiver: String,
    dest: AssetInfo,
) -> Result<(Seq<CollectorAction>, bool), ContractError> {
    if has_duplicate(assets) {
        Err(ContractError::DuplicateAssets)
    } else {
        swap_prefix(cfg, contract, assets, lookups, receiver, dest, assets.len())
    }
}

/// Builds the messages that swap `assets` into `dest` for `receiver`
/// (`lookups[i]` are the pairs known for `assets[i]`; `contract_addr` is the
/// collector's own address) and says whether the base-swap hook is needed.
pub fn get_swap_msgs(
    cfg: &Config,
    contract_addr: &String,
    assets: &Vec<Asset>,
    lookups: &Vec<PairLookups>,
    receiver: &String,
    dest_asset_info: &AssetInfo,
) -> (r: Result<(Vec<CollectorAction>, bool), ContractError>)
    requires
        lookups@.len() == assets@.len(),
    ensures
        match swap_msgs(*cfg, *contract_addr, assets@, lookups@, *receiver, *dest_asset_info) {
            Err(e) => r == Err::<(Vec<CollectorAction>, bool), ContractError>(e),
            Ok((msgs, hook)) => r is Ok && r->Ok_0.0@ == msgs && r->Ok_0.1 == hook,
        },
{
    if check_duplicates(assets) {
        return Err(ContractError::DuplicateAssets);
    }
    let mut msgs: Vec<CollectorAction> = Vec::new();
    let mut need_hook = false;
    let n = assets.len();
    let mut i: usize = 0;
    while i < n
        invariant
            n == assets@.len(),
            lookups@.len() == n,
            0 <= i <= n,
            !has_duplicate(assets@),
            swap_prefix(*cfg, *contract_addr, assets@, lookups@, *receiver, *dest_asset_info, i as nat)
                == Ok::<(Seq<CollectorAction>, bool), ContractError>((msgs@, need_hook)),
        decreases n - i,
    {
        let asset = &assets[i];
        if asset.amount != 0 {
            if info_equal(&asset.info, dest_asset_info) {
                msgs.push(CollectorAction::Transfer { asset: copy_asset(asset), recipient: receiver.clone() });
            } else {
                match get_swap_route(&lookups[i]) {
                    Some(SwapRoute::PrismSwapDirect(pair)) => {
                        msgs.push(get_prism_direct_swap_msg(&pair, asset, receiver));
                    },
                    Some(SwapRoute::PrismSwapRouter(_p1, _p2)) => {
                        let base_asset_info = AssetInfo::Cw20(cfg.prism_token.clone());
                        msgs.push(
                            get_prism_router_swap_msg(
                                cfg,
                                asset,
                                dest_asset_info,
                                &base_asset_info,
                                receiver,
                            ),
                        );
                    },
                    Some(SwapRoute::AstroportToBase(pair)) => {
                        need_hook = true;
                        msgs.push(get_astro_direct_swap_msg(&pair, asset, contract_addr));
                    },
                    None => {
                        proof {
                            assert(swap_step(*cfg, *contract_addr, assets@[i as int], lookups@[i as int], *receiver, *dest_asset_info)
                                == Err::<(Option<CollectorAction>, bool), ContractError>(ContractError::MissingRoute {
                                    asset: assets@[i as int].info,
                                    dest_asset: *dest_asset_info,
                                }));
                            assert(swap_prefix(*cfg, *contract_addr, assets@, lookups@, *receiver, *dest_asset_info, (i + 1) as nat)
                                == Err::<(Seq<CollectorAction>, bool), ContractError>(ContractError::MissingRoute {
                                    asset: assets@[i as int].info,
                                    dest_asset: *dest_asset_info,
                                }));
                            lemma_swap_prefix_fails(*cfg, *contract_addr, assets@, lookups@, *receiver, *dest_asset_info, i as nat + 1, n as nat);
                        }
                        return Err(
                            ContractError::MissingRoute {
                                asset: copy_info(&asset.info),
                                dest_asset: copy_info(dest_asset_info),
                            },
                        );
                    },
                }
            }
        }
        i = i + 1;
    }
    Ok((msgs, need_hook))
}

proof fn lemma_swap_prefix_per_asset(
    cfg: Config,
    contract: String,
    assets: Seq<Asset>,
    lookups: Seq<PairLookups>,
    receiver: String,
    dest: AssetInfo,
    n: nat,
)
    requires
        n <= assets.len(),
        lookups.len() == assets.len(),
    ensures
        ({
            let r = swap_prefix(cfg, contract, assets, lookups, receiver, dest, n);
            &&& r is Ok <==> forall|i: int|
                0 <= i < n ==> #[trigger] swap_step(cfg, contract, assets[i], lookups[i], receiver, dest)
                    is Ok
            &&& r is Ok ==> (r->Ok_0.1 <==> exists|i: int|
                0 <= i < n && #[trigger] swap_step(
                    cfg,
                    contract,
                    assets[i],
                    lookups[i],
                    receiver,
                    dest,
                )->Ok_0.1)
            &&& r is Ok ==> r->Ok_0.0.len() <= n
            &&& r is Ok && (forall|i: int| 0 <= i < n ==> #[trigger] assets[i].amount > 0) ==> {
                &&& r->Ok_0.0.len() == n
                &&& forall|i: int|
                    0 <= i < n ==> r->Ok_0.0[i] == #[trigger] swap_step(
                        cfg,
                        contract,
                        assets[i],
                        lookups[i],
                        receiver,
                        dest,
                    )->Ok_0.0->Some_0
            }
        }),
    decreases n,
{
    if n > 0 {
        lemma_swap_prefix_per_asset(cfg, contract, assets, lookups, receiver, dest, (n - 1) as nat);
        let prev = swap_prefix(cfg, contract, assets, lookups, receiver, dest, (n - 1) as nat);
        let r = swap_prefix(cfg, contract, assets, lookups, receiver, dest, n);
        let last = swap_step(cfg, contract, assets[n - 1], lookups[n - 1], receiver, dest);
        if prev is Ok && last is Ok {
            assert forall|i: int|
                0 <= i < n implies #[trigger] swap_step(cfg, contract, assets[i], lookups[i], receiver, dest)
                is Ok by {
                if i < n - 1 {
                }
            }
            if forall|i: int| 0 <= i < n ==> #[trigger] assets[i].amount > 0 {
                assert(assets[n - 1].amount > 0);
                assert forall|i: int| 0 <= i < n - 1 implies #[trigger] assets[i].amount > 0 by {}
                assert forall|i: int|
                    0 <= i < n implies r->Ok_0.0[i] == #[trigger] swap_step(
                        cfg,
                        contract,
                        assets[i],
                        lookups[i],
                        receiver,
                        dest,
                    )->Ok_0.0->Some_0 by {
                    if i < n - 1 {
                        assert(r->Ok_0.0[i] == prev->Ok_0.0[i]);
                    }
                }
            }
        } else if prev is Err {
            let k = choose|i: int|
                0 <= i < n - 1 && !(#[trigger] swap_step(
                    cfg,
                    contract,
                    assets[i],
                    lookups[i],
                    receiver,
                    dest,
                ) is Ok);
            assert(!(swap_step(cfg, contract, assets[k], lookups[k], receiver, dest) is Ok));
        }
    }
}

/// The swap messages go asset by asset. Two assets of one kind are refused;
/// otherwise they succeed exactly when every asset has a step (a nonzero
/// amount of anything but the destination needs a route), the base-swap hook
/// is needed exactly when some asset's step needs it (it takes the
/// Astroport-to-base route), there is at most one message per asset, and when
/// every amount is nonzero the `i`-th message is the `i`-th asset's.
pub proof fn lemma_swap_msgs_per_asset(
    cfg: Config,
    contract: String,
    assets: Seq<Asset>,
    lookups: Seq<PairLookups>,
    receiver: String,
    dest: AssetInfo,
)
    requires
        lookups.len() == assets.len(),
    ensures
        ({
            let r = swap_msgs(cfg, contract, assets, lookups, receiver, dest);
            &&& has_duplicate(assets) ==> r == Err::<(Seq<CollectorAction>, bool), ContractError>(
                ContractError::DuplicateAssets,
            )
            &&& !has_duplicate(assets) ==> (r is Ok <==> forall|i: int|
                0 <= i < assets.len() ==> #[trigger] swap_step(
                    cfg,
                    contract,
                    assets[i],
                    lookups[i],
                    receiver,
                    dest,
                ) is Ok)
            &&& r is Ok ==> (r->Ok_0.1 <==> exists|i: int|
                0 <= i < assets.len() && #[trigger] swap_step(
                    cfg,
                    contract,
                    assets[i],
                    lookups[i],
                    receiver,
                    dest,
                )->Ok_0.1)
            &&& r is Ok ==> r->Ok_0.0.len() <= assets.len()
            &&& r is Ok && (forall|i: int| 0 <= i < assets.len() ==> #[trigger] assets[i].amount > 0)
                ==> {
                &&& r->Ok_0.0.len() == assets.len()
                &&& forall|i: int|
                    0 <= i < assets.len() ==> r->Ok_0.0[i] == #[trigger] swap_step(
                        cfg,
                        contract,
                        assets[i],
                        lookups[i],
                        receiver,
                        dest,
                    )->Ok_0.0->Some_0
            }
        }),
{
    lemma_swap_prefix_per_asset(cfg, contract, assets, lookups, receiver, dest, assets.len());
}

proof fn lemma_swap_prefix_fails(
    cfg: Config,
    contract: String,
    assets: Seq<Asset>,
    lookups: Seq<PairLookups>,
    receiver: String,
    dest: AssetInfo,
    k: nat,
    n: nat,
)
    requires
        k <= n,
        swap_prefix(cfg, contract, assets, lookups, receiver, dest, k) is Err,
    ensures
        swap_prefix(cfg, contract, assets, lookups, receiver, dest, n) == swap_prefix(
            cfg,
            contract,
            assets,
            lookups,
            receiver,
            dest,
            k,
        ),
    decreases n - k,
{
    if k < n {
        lemma_swap_prefix_fails(cfg, contract, assets, lookups, receiver, dest, k + 1, n);
    }
}

/// The amount of the first coin of denomination `denom` among `funds`, if any.
pub open spec fn sent_amount(funds: Seq<Coin>, denom: Seq<char>) -> Option<u128>
    decreases funds.len(),
{
    if funds.len() == 0 {
        None
    } else if funds[0].denom@ == denom {
        Some(funds[0].amount)
    } else {
        sent_amount(funds.drop_first(), denom)
    }
}

/// Whether the coins sent match a native `asset`: the first coin of its
/// denomination carries exactly its amount, or there is none and the amount
/// is zero. A cw20 asset always matches.
pub open spec fn native_sent(asset: Asset, funds: Seq<Coin>) -> bool {
    match asset.info {
        AssetInfo::Native(denom) => match sent_amount(funds, denom@) {
            Some(a) => a == asset.amount,
            None => asset.amount == 0,
        },
        AssetInfo::Cw20(_) => true,
    }
}

/// Checks that the coins sent match a native `asset`.
pub fn assert_sent_native_token_balance(asset: &Asset, funds: &Vec<Coin>) -> (r: Result<
    (),
    ContractError,
>)
    ensures
        r == if native_sent(*asset, funds@) {
            Ok::<(), ContractError>(())
        } else {
            Err::<(), ContractError>(ContractError::NativeBalanceMismatch)
        },
{
    let denom = match &asset.info {
        AssetInfo::Cw20(_) => return Ok(()),
        AssetInfo::Native(denom) => denom,
    };
    let mut i: usize = 0;
    proof {
        assert(funds@.skip(0) =~= funds@);
    }
    while i < funds.len()
        invariant
            0 <= i <= funds@.len(),
            sent_amount(funds@, denom@) == sent_amount(funds@.skip(i as int), denom@),
            native_sent(*asset, funds@) == match sent_amount(funds@, denom@) {
                Some(a) => a == asset.amount,
                None => asset.amount == 0,
            },
        decreases funds@.len() - i,
    {
        proof {
            assert(funds@.skip(i as int).drop_first() =~= funds@.skip(i + 1));
            assert(funds@.skip(i as int)[0] == funds@[i as int]);
        }
        if funds[i].denom == *denom {
            if funds[i].amount == asset.amount {
                return Ok(());
            }
            return Err(ContractError::NativeBalanceMismatch);
        }
        i = i + 1;
    }
    if asset.amount == 0 {
        Ok(())
    } else {
        Err(ContractError::NativeBalanceMismatch)
    }
}

/// The intake of the first `n` assets of a conversion: a pull of each cw20
/// asset from the sender, and a check of each native one against the coins
/// sent (the first mismatch fails the intake); zero amounts are skipped. Also
/// the amount of the base coin among them (the last such asset's).
pub open spec fn intake_prefix(
    cfg: Config,
    contract: String,
    sender: String,
    funds: Seq<Coin>,
    assets: Seq<Asset>,
    n: nat,
) -> Result<(Seq<CollectorAction>, u128), ContractError>
    decreases n,
{
    if n == 0 {
        Ok((Seq::empty(), 0))
    } else {
        match intake_prefix(cfg, contract, sender, funds, assets, (n - 1) as nat) {
            Err(e) => Err(e),
            Ok((msgs, base)) => {
                let a = assets[n - 1];
                if a.amount == 0 {
                    Ok((msgs, base))
                } else {
                    match a.info {
                        AssetInfo::Cw20(token) => Ok(
                            (
                                msgs.push(
                                    CollectorAction::TransferFrom {
                                        token,
                                        owner: sender,
                                        recipient: contract,
                                        amount: a.amount,
                                    },
                                ),
                                base,
                            ),
                        ),
                        AssetInfo::Native(denom) => if !native_sent(a, funds) {
                            Err(ContractError::NativeBalanceMismatch)
                        } else if denom@ == cfg.base_denom@ {
                            Ok((msgs, a.amount))
                        } else {
                            Ok((msgs, base))
                        },
                    }
                }
            },
        }
    }
}

proof fn lemma_intake_prefix_fails(
    cfg: Config,
    contract: String,
    sender: String,
    funds: Seq<Coin>,
    assets: Seq<Asset>,
    k: nat,
    n: nat,
)
    requires
        k <= n,
        intake_prefix(cfg, contract, sender, funds, assets, k) is Err,
    ensures
        intake_prefix(cfg, contract, sender, funds, assets, n) == intake_prefix(
            cfg,
            contract,
            sender,
            funds,
            assets,
            k,
        ),
    decreases n - k,
{
    if k < n {
        lemma_intake_prefix_fails(cfg, contract, sender, funds, assets, k + 1, n);
    }
}

/// The messages of a conversion of `assets` into `dest` for `receiver`: the
/// intake, then the swaps, then, where a swap goes to the base coin first, the
/// hook that swaps the base coin received beyond the collector's balance
/// before the call (`base_balance` less the base coin sent along).
pub open spec fn conversion(
    cfg: Config,
    contract: String,
    sender: String,
    funds: Seq<Coin>,
    assets: Seq<Asset>,
    lookups: Seq<PairLookups>,
    receiver: String,
    dest: AssetInfo,
    base_balance: u128,
) -> Result<Seq<CollectorAction>, ContractError> {
    match intake_prefix(cfg, contract, sender, funds, assets, assets.len()) {
        Err(e) => Err(e),
        Ok((pulls, base_input)) => match swap_msgs(cfg, contract, assets, lookups, receiver, dest) {
            Err(e) => Err(e),
            Ok((swaps, hook)) => if !hook {
                Ok(pulls + swaps)
            } else if base_input > base_balance {
                Err(ContractError::Overflow)
            } else {
                Ok(
                    (pulls + swaps).push(
                        CollectorAction::BaseSwapHook {
                            contract,
                            receiver,
                            prev_base_balance: (base_balance - base_input) as u128,
                            dest,
                        },
                    ),
                )
            },
        },
    }
}

/// Converts `assets` sent by `sender` (cw20 ones by allowance, native ones as
/// `funds`) into `dest_asset_info` for `receiver` (the sender, where `None`).
/// `lookups[i]` are the pairs known for `assets[i]`; `base_balance` is the
/// collector's base coin balance now, the coins sent included.
pub fn convert_and_send(
    cfg: &Config,
    contract_addr: String,
    sender: String,
    funds: &Vec<Coin>,
    assets: &Vec<Asset>,
    lookups: &Vec<PairLookups>,
    receiver: Option<String>,
    dest_asset_info: AssetInfo,
    base_balance: u128,
) -> (r: Result<Vec<CollectorAction>, ContractError>)
    requires
        lookups@.len() == assets@.len(),
    ensures
        ({
            let recv = match receiver {
                Some(x) => x,
                None => sender,
            };
            match conversion(
                *cfg,
                contract_addr,
                sender,
                funds@,
                assets@,
                lookups@,
                recv,
                dest_asset_info,
                base_balance,
            ) {
                Err(e) => r == Err::<Vec<CollectorAction>, ContractError>(e),
                Ok(msgs) => r is Ok && r->Ok_0@ == msgs,
            }
        }),
{
    let mut msgs: Vec<CollectorAction> = Vec::new();
    let mut base_input: u128 = 0;
    let n = assets.len();
    let mut i: usize = 0;
    while i < n
        invariant
            n == assets@.len(),
            0 <= i <= n,
            intake_prefix(*cfg, contract_addr, sender, funds@, assets@, i as nat) == Ok::<
                (Seq<CollectorAction>, u128),
                ContractError,
            >((msgs@, base_input)),
        decreases n - i,
    {
        let asset = &assets[i];
        if asset.amount != 0 {
            match &asset.info {
                AssetInfo::Cw20(token) => {
                    msgs.push(
                        CollectorAction::TransferFrom {
                            token: token.clone(),
                            owner: sender.clone(),
                            recipient: contract_addr.clone(),
                            amount: asset.amount,
                        },
                    );
                },
                AssetInfo::Native(denom) => {
                    match assert_sent_native_token_balance(asset, funds) {
                        Ok(()) => {},
                        Err(e) => {
                            proof {
                                lemma_intake_prefix_fails(*cfg, contract_addr, sender, funds@, assets@, (i + 1) as nat, n as nat);
                            }
                            return Err(e);
                        },
                    }
                    if *denom == cfg.base_denom {
                        base_input = asset.amount;
                    }
                },
            }
        }
        i = i + 1;
    }
    let recv = match receiver {
        Some(x) => x,
        None => sender,
    };
    let (swaps, need_hook) = get_swap_msgs(cfg, &contract_addr, assets, lookups, &recv, &dest_asset_info)?;
    let ghost pulls = msgs@;
    let mut k: usize = 0;
    while k < swaps.len()
        invariant
            0 <= k <= swaps@.len(),
            msgs@ == pulls + swaps@.take(k as int),
        decreases swaps@.len() - k,
    {
        msgs.push(swaps[k].clone_action());
        k = k + 1;
        proof {
            assert(msgs@ =~= pulls + swaps@.take(k as int));
        }
    }
    proof {
        assert(swaps@.take(k as int) =~= swaps@);
    }
    if need_hook {
        if base_input > base_balance {
            return Err(ContractError::Overflow);
        }
        msgs.push(
            CollectorAction::BaseSwapHook {
                contract: contract_addr,
                receiver: recv,
                prev_base_balance: base_balance - base_input,
                dest: dest_asset_info,
            },
        );
    }
    Ok(msgs)
}

/// The collector's balances of `asset_infos` (`balances[i]` of
/// `asset_infos[i]`) as assets.
pub open spec fn balance_assets(asset_infos: Seq<AssetInfo>, balances: Seq<u128>) -> Seq<Asset> {
    Seq::new(asset_infos.len(), |i: int| Asset { info: asset_infos[i], amount: balances[i] })
}

/// Converts the collector's whole balances of `asset_infos` (`balances[i]`
/// of `asset_infos[i]`; `lookups[i]` the pairs known for it) into PRISM for
/// the distribution contract. The base-swap hook, where needed, swaps the
/// collector's whole base coin balance.
pub fn distribute(
    cfg: &Config,
    contract_addr: String,
    asset_infos: &Vec<AssetInfo>,
    balances: &Vec<u128>,
    lookups: &Vec<PairLookups>,
) -> (r: Result<Vec<CollectorAction>, ContractError>)
    requires
        balances@.len() == asset_infos@.len(),
        lookups@.len() == asset_infos@.len(),
    ensures
        ({
            let dest = AssetInfo::Cw20(cfg.prism_token);
            match swap_msgs(
                *cfg,
                contract_addr,
                balance_assets(asset_infos@, balances@),
                lookups@,
                cfg.distribution_contract,
                dest,
            ) {
                Err(e) => r == Err::<Vec<CollectorAction>, ContractError>(e),
                Ok((msgs, hook)) => r is Ok && r->Ok_0@ == if hook {
                    msgs.push(
                        CollectorAction::BaseSwapHook {
                            contract: contract_addr,
                            receiver: cfg.distribution_contract,
                            prev_base_balance: 0,
                            dest,
                        },
                    )
                } else {
                    msgs
                },
            }
        }),
{
    let mut assets: Vec<Asset> = Vec::new();
    let n = asset_infos.len();
    let mut i: usize = 0;
    while i < n
        invariant
            n == asset_infos@.len(),
            balances@.len() == n,
            0 <= i <= n,
            assets@ == balance_assets(asset_infos@, balances@).take(i as int),
        decreases n - i,
    {
        assets.push(Asset { info: copy_info(&asset_infos[i]), amount: balances[i] });
        i = i + 1;
        proof {
            assert(assets@ =~= balance_assets(asset_infos@, balances@).take(i as int));
        }
    }
    proof {
        assert(assets@ =~= balance_assets(asset_infos@, balances@));
    }
    let dest = AssetInfo::Cw20(cfg.prism_token.clone());
    let (mut msgs, need_hook) = get_swap_msgs(
        cfg,
        &contract_addr,
        &assets,
        lookups,
        &cfg.distribution_contract,
        &dest,
    )?;
    if need_hook {
        msgs.push(
            CollectorAction::BaseSwapHook {
                contract: contract_addr,
                receiver: cfg.distribution_contract.clone(),
                prev_base_balance: 0,
                dest,
            },
        );
    }
    Ok(msgs)
}

/// The collector's hook, which only the collector itself (`contract_addr`)
/// may call: swaps the base coin received beyond `prev_base_balance`
/// (`base_balance` is the balance now; `lookups` the pairs known for the base
/// coin) into `dest_asset_info` for `receiver`. Nothing happens where nothing
/// was received.
pub fn base_swap_hook(
    cfg: &Config,
    contract_addr: String,
    sender: &String,
    receiver: String,
    prev_base_balance: u128,
    dest_asset_info: AssetInfo,
    base_balance: u128,
    lookups: PairLookups,
) -> (r: Result<Vec<CollectorAction>, ContractError>)
    ensures
        sender@ != contract_addr@ ==> r == Err::<Vec<CollectorAction>, ContractError>(
            ContractError::Unauthorized,
        ),
        sender@ == contract_addr@ && prev_base_balance > base_balance ==> r == Err::<
            Vec<CollectorAction>,
            ContractError,
        >(ContractError::Overflow),
        sender@ == contract_addr@ && prev_base_balance == base_balance ==> (r matches Ok(msgs)
            && msgs@.len() == 0),
        sender@ == contract_addr@ && prev_base_balance < base_balance ==> {
            let base = Asset {
                info: AssetInfo::Native(cfg.base_denom),
                amount: (base_balance - prev_base_balance) as u128,
            };
            match swap_msgs(*cfg, contract_addr, seq![base], seq![lookups], receiver, dest_asset_info) {
                Err(e) => r == Err::<Vec<CollectorAction>, ContractError>(e),
                Ok((msgs, hook)) => if hook {
                    r == Err::<Vec<CollectorAction>, ContractError>(ContractError::HookInsideHook)
                } else {
                    r is Ok && r->Ok_0@ == msgs
                },
            }
        },
{
    if *sender != contract_addr {
        return Err(ContractError::Unauthorized);
    }
    if prev_base_balance > base_balance {
        return Err(ContractError::Overflow);
    }
    let swap_amount = base_balance - prev_base_balance;
    if swap_amount == 0 {
        return Ok(Vec::new());
    }
    let assets = vec![Asset { info: AssetInfo::Native(cfg.base_denom.clone()), amount: swap_amount }];
    let all_lookups = vec![lookups];
    proof {
        assert(assets@ =~= seq![Asset { info: AssetInfo::Native(cfg.base_denom), amount: swap_amount }]);
        assert(all_lookups@ =~= seq![lookups]);
    }
    let (msgs, need_hook) = get_swap_msgs(
        cfg,
        &contract_addr,
        &assets,
        &all_lookups,
        &receiver,
        &dest_asset_info,
    )?;
    if need_hook {
        return Err(ContractError::HookInsideHook);
    }
    Ok(msgs)
}

/// The bytes that identify an asset kind: the denomination or the token's
/// address, as UTF-8.
pub open spec fn info_bytes(a: AssetInfo) -> Seq<u8> {
    match a {
        AssetInfo::Native(denom) => encode_utf8(denom@),
        AssetInfo::Cw20(addr) => encode_utf8(addr@),
    }
}

fn info_as_bytes(a: &AssetInfo) -> (r: Vec<u8>)
    ensures
        r@ == info_bytes(*a),
{
    match a {
        AssetInfo::Native(denom) => slice_to_vec(denom.as_str().as_bytes()),
        AssetInfo::Cw20(addr) => slice_to_vec(addr.as_str().as_bytes()),
    }
}

/// The key under which a PrismSwap factory stores the pair of two asset
/// kinds: their identifying bytes in ascending order, concatenated.
pub fn pair_key(asset_infos: &[AssetInfo; 2]) -> (r: Vec<u8>)
    ensures
        r@ == sorted_concat(info_bytes(asset_infos@[0]), info_bytes(asset_infos@[1])),
{
    sorted_key(info_as_bytes(&asset_infos[0]), info_as_bytes(&asset_infos[1]))
}

/// The key under which the Astroport factory stores the pair of two asset
/// kinds, built the same way.
pub fn astro_pair_key(asset_infos: &[AssetInfo; 2]) -> (r: Vec<u8>)
    ensures
        r@ == sorted_concat(info_bytes(asset_infos@[0]), info_bytes(asset_infos@[1])),
{
    pair_key(asset_infos)
}

} // verus!
