//! Limit orders on PRISM pairs: bidders escrow an offer asset and ask for a
//! minimum return; anyone may execute an order once the pair's price allows it,
//! paying a fee in PRISM that is split between the executor and the protocol.

use crate::math::{decimal_mul, multiply_ratio, DECIMAL_FRACTIONAL};
use vstd::prelude::*;
use vstd::slice::slice_to_vec;
use vstd::utf8::encode_utf8;

verus! {

/// The big-endian encoding of the lowest `n` bytes of `x`.
pub open spec fn be_bytes_n(x: nat, n: nat) -> Seq<u8>
    decreases n,
{
    if n == 0 {
        Seq::empty()
    } else {
        be_bytes_n(x / 256, (n - 1) as nat).push((x % 256) as u8)
    }
}

/// The 8-byte big-endian encoding of `x`, as storage keys use it.
pub open spec fn be_bytes(x: u64) -> Seq<u8> {
    be_bytes_n(x as nat, 8)
}

/// The 8-byte big-endian encoding of `x`.
pub fn u64_be_bytes(x: u64) -> (r: Vec<u8>)
    ensures
        r@ == be_bytes(x),
{
    let x1 = x / 256;
    let x2 = x1 / 256;
    let x3 = x2 / 256;
    let x4 = x3 / 256;
    let x5 = x4 / 256;
    let x6 = x5 / 256;
    let x7 = x6 / 256;
    let mut v: Vec<u8> = Vec::new();
    v.push((x7 % 256) as u8);
    v.push((x6 % 256) as u8);
    v.push((x5 % 256) as u8);
    v.push((x4 % 256) as u8);
    v.push((x3 % 256) as u8);
    v.push((x2 % 256) as u8);
    v.push((x1 % 256) as u8);
    v.push((x % 256) as u8);
    proof {
        reveal_with_fuel(be_bytes_n, 9);
        assert(be_bytes_n(x7 as nat / 256, 0) =~= Seq::<u8>::empty());
        assert(v@ =~= be_bytes(x));
    }
    v
}

/// The first storage key after the order `start_after`: its key with a byte 1
/// appended, so that an exclusive bound skips the order itself.
pub fn calc_range_start(start_after: Option<u64>) -> (r: Option<Vec<u8>>)
    ensures
        match start_after {
            None => r is None,
            Some(id) => r matches Some(k) && k@ == be_bytes(id).push(1u8),
        },
{
    match start_after {
        None => None,
        Some(id) => {
            let mut v = u64_be_bytes(id);
            v.push(1u8);
            Some(v)
        },
    }
}

/// The first storage key after the order `start_after`: its key with a byte 1
/// appended. As the exclusive upper bound of a descending listing it keeps the
/// order `start_after` itself in the listing.
pub fn calc_range_end(start_after: Option<u64>) -> (r: Option<Vec<u8>>)
    ensures
        match start_after {
            None => r is None,
            Some(id) => r matches Some(k) && k@ == be_bytes(id).push(1u8),
        },
{
    match start_after {
        None => None,
        Some(id) => {
            let mut v = u64_be_bytes(id);
            v.push(1u8);
            Some(v)
        },
    }
}


/// Why a limit-order operation is rejected.
#[derive(Clone, Debug, PartialEq, Eq)]
pub enum LimitOrderError {
    /// "unauthorized"
    Unauthorized,
    /// "fee can not be bigger than 1.0"
    FeeTooLarge,
    /// "one of the assets has to be PRISM token"
    NoPrismAsset,
    /// "pair already exists"
    PairExists,
    /// "the 2 assets provided are not supported"
    PairNotSupported,
    /// "Native token balance mismatch between the argument and the transferred"
    NativeBalanceMismatch,
    /// The order does not exist.
    OrderNotFound,
    /// "invalid order"
    InvalidOrder,
    /// "insufficient return amount"
    InsufficientReturn,
    /// A checked subtraction underflowed (the contract reports an overflow error).
    Overflow,
    /// An arithmetic step overflows or divides by zero, which aborts the
    /// transaction.
    Aborted,
}

/// An asset kind: a cw20 token by contract address or a native coin by
/// denomination.
#[derive(Clone, Debug, PartialEq, Eq)]
pub enum AssetInfo {
    Token { contract_addr: String },
    NativeToken { denom: String },
}

/// An amount of an asset.
#[derive(Clone, Debug, PartialEq, Eq)]
pub struct Asset {
    pub info: AssetInfo,
    pub amount: u128,
}

/// A coin sent along with a message.
#[derive(Clone, Debug, PartialEq, Eq)]
pub struct Coin {
    pub denom: String,
    pub amount: u128,
}

/// The limit-order configuration. `order_fee` and `executor_fee_portion` are
/// decimals in atomic units.
#[derive(Clone, Debug, PartialEq, Eq)]
pub struct Config {
    pub base_denom: String,
    pub owner: String,
    pub fee_collector_addr: String,
    pub prism_token: String,
    pub prism_ust_pair: String,
    pub order_fee: u128,
    pub min_fee_value: u128,
    pub executor_fee_portion: u128,
    pub excess_collector_addr: String,
}

/// A stored order: the bidder escrows `offer_asset` and asks for at least
/// `ask_asset` from the pair `pair_addr`.
#[derive(Clone, Debug, PartialEq, Eq)]
pub struct OrderInfo {
    pub order_id: u64,
    pub bidder_addr: String,
    pub pair_addr: String,
    pub inter_pair_addr: Option<String>,
    pub offer_asset: Asset,
    pub ask_asset: Asset,
}

/// An outgoing message of the limit-order contract.
#[derive(Clone, Debug, PartialEq, Eq)]
pub enum OrderAction {
    /// Send `amount` of the cw20 `token` to the pair `pair` with a swap hook.
    SendToPair { token: String, pair: String, amount: u128 },
    /// Swap the native `offer` on the pair `pair`, attaching the coins.
    SwapNative { pair: String, denom: String, amount: u128 },
    /// Send `asset` to `recipient` (a cw20 transfer or a bank send).
    SendAsset { asset: Asset, recipient: String },
}

/// A query the execution of an order needs answered.
#[derive(Clone, Debug, PartialEq, Eq)]
pub enum OrderQuery {
    /// What the pair `pair` returns for `offer`: a swap simulation, answered
    /// with the return amount.
    Simulate { pair: String, offer: Asset },
    /// What must be offered to the pair `pair` to get `ask`: a reverse swap
    /// simulation, answered with the offer amount.
    ReverseSimulate { pair: String, ask: Asset },
}

/// An executed order: its messages and the amounts the contract reports.
#[derive(Clone, Debug, PartialEq, Eq)]
pub struct ExecutedOrder {
    pub actions: Vec<OrderAction>,
    pub executor_fee_amount: u128,
    pub protocol_fee_amount: u128,
    pub excess_amount: u128,
}

/// The next step of executing an order.
#[derive(Clone, Debug, PartialEq, Eq)]
pub enum ExecuteStep {
    /// Answer this query and call again with the answer appended.
    Query(OrderQuery),
    /// The order is executed.
    Done(ExecutedOrder),
}

/// Where the execution of an order stands, given the answers so far.
#[derive(Clone, Debug, PartialEq, Eq)]
pub enum OrderPlan {
    /// The next query to answer.
    Ask(OrderQuery),
    /// The swap to make, what it returns, and the PRISM fee taken.
    Settle { offer: Asset, ret: Asset, fee: u128 },
    /// The execution fails.
    Fail(LimitOrderError),
}

/// Whether two asset kinds are the same.
pub open spec fn same_info(a: AssetInfo, b: AssetInfo) -> bool {
    match (a, b) {
        (AssetInfo::Token { contract_addr: x }, AssetInfo::Token { contract_addr: y }) => x@ == y@,
        (AssetInfo::NativeToken { denom: x }, AssetInfo::NativeToken { denom: y }) => x@ == y@,
        _ => false,
    }
}

/// The PRISM token as an asset kind.
pub open spec fn prism_info(cfg: Config) -> AssetInfo {
    AssetInfo::Token { contract_addr: cfg.prism_token }
}

/// Whether two asset kinds are the same.
pub fn info_equal(a: &AssetInfo, b: &AssetInfo) -> (r: bool)
    ensures
        r == same_info(*a, *b),
{
    match (a, b) {
        (AssetInfo::Token { contract_addr: x }, AssetInfo::Token { contract_addr: y }) => *x == *y,
        (AssetInfo::NativeToken { denom: x }, AssetInfo::NativeToken { denom: y }) => *x == *y,
        _ => false,
    }
}

/// A copy of an asset kind.
pub fn copy_info(a: &AssetInfo) -> (r: AssetInfo)
    ensures
        r == *a,
{
    match a {
        AssetInfo::Token { contract_addr } => AssetInfo::Token { contract_addr: contract_addr.clone() },
        AssetInfo::NativeToken { denom } => AssetInfo::NativeToken { denom: denom.clone() },
    }
}

/// A copy of an asset.
pub fn copy_asset(a: &Asset) -> (r: Asset)
    ensures
        r == *a,
{
    Asset { info: copy_info(&a.info), amount: a.amount }
}

/// The amount `a` times the decimal `d` (atomic units), rounded down, as
/// `Uint128 * Decimal` computes it; `None` where it overflows.
fn mul_decimal(a: u128, d: u128) -> (r: Option<u128>)
    ensures
        r is Some <==> decimal_mul(a as int, d as int) <= u128::MAX,
        r matches Some(v) ==> v == decimal_mul(a as int, d as int),
{
    if a == 0 || d == 0 {
        proof {
            assert(decimal_mul(a as int, d as int) == 0) by (nonlinear_arith)
                requires
                    a == 0 || d == 0,
            ;
        }
        return Some(0);
    }
    multiply_ratio(a, d, DECIMAL_FRACTIONAL)
}

/// How the execution of `order` stands after the query answers `ans`.
///
/// Where the order asks for PRISM, the pair's return for the offer is
/// simulated and the fee (`order_fee` of it) taken from the return; where it
/// offers PRISM, the fee is taken from the offer before the swap is simulated.
/// Either way, where selling the fee for the base coin would fetch less than
/// `min_fee_value`, the fee is instead what buying `min_fee_value` of the base
/// coin costs in PRISM (a reverse simulation).
pub open spec fn order_plan(cfg: Config, order: OrderInfo, ans: Seq<u128>) -> OrderPlan {
    let p = prism_info(cfg);
    let min_fee_asset = Asset {
        info: AssetInfo::NativeToken { denom: cfg.base_denom },
        amount: cfg.min_fee_value,
    };
    if same_info(order.ask_asset.info, p) {
        if ans.len() == 0 {
            OrderPlan::Ask(OrderQuery::Simulate { pair: order.pair_addr, offer: order.offer_asset })
        } else {
            let r = ans[0];
            let fee = decimal_mul(r as int, cfg.order_fee as int);
            if fee > u128::MAX {
                OrderPlan::Fail(LimitOrderError::Aborted)
            } else if ans.len() == 1 {
                OrderPlan::Ask(
                    OrderQuery::Simulate {
                        pair: cfg.prism_ust_pair,
                        offer: Asset { info: p, amount: fee as u128 },
                    },
                )
            } else if ans[1] < cfg.min_fee_value {
                if ans.len() == 2 {
                    OrderPlan::Ask(
                        OrderQuery::ReverseSimulate { pair: cfg.prism_ust_pair, ask: min_fee_asset },
                    )
                } else if ans[2] > r {
                    OrderPlan::Fail(LimitOrderError::Overflow)
                } else {
                    OrderPlan::Settle {
                        offer: order.offer_asset,
                        ret: Asset { info: p, amount: (r - ans[2]) as u128 },
                        fee: ans[2],
                    }
                }
            } else if fee > r {
                OrderPlan::Fail(LimitOrderError::Overflow)
            } else {
                OrderPlan::Settle {
                    offer: order.offer_asset,
                    ret: Asset { info: p, amount: (r - fee) as u128 },
                    fee: fee as u128,
                }
            }
        }
    } else if same_info(order.offer_asset.info, p) {
        let amount = order.offer_asset.amount;
        let fee = decimal_mul(amount as int, cfg.order_fee as int);
        if fee > u128::MAX {
            OrderPlan::Fail(LimitOrderError::Aborted)
        } else if ans.len() == 0 {
            OrderPlan::Ask(
                OrderQuery::Simulate {
                    pair: cfg.prism_ust_pair,
                    offer: Asset { info: p, amount: fee as u128 },
                },
            )
        } else if ans[0] < cfg.min_fee_value {
            if ans.len() == 1 {
                OrderPlan::Ask(
                    OrderQuery::ReverseSimulate { pair: cfg.prism_ust_pair, ask: min_fee_asset },
                )
            } else if ans[1] > amount {
                OrderPlan::Fail(LimitOrderError::Overflow)
            } else if ans.len() == 2 {
                OrderPlan::Ask(
                    OrderQuery::Simulate {
                        pair: order.pair_addr,
                        offer: Asset { info: p, amount: (amount - ans[1]) as u128 },
                    },
                )
            } else {
                OrderPlan::Settle {
                    offer: Asset { info: p, amount: (amount - ans[1]) as u128 },
                    ret: Asset { info: order.ask_asset.info, amount: ans[2] },
                    fee: ans[1],
                }
            }
        } else if fee > amount {
            OrderPlan::Fail(LimitOrderError::Overflow)
        } else if ans.len() == 1 {
            OrderPlan::Ask(
                OrderQuery::Simulate {
                    pair: order.pair_addr,
                    offer: Asset { info: p, amount: (amount - fee) as u128 },
                },
            )
        } else {
            OrderPlan::Settle {
                offer: Asset { info: p, amount: (amount - fee) as u128 },
                ret: Asset { info: order.ask_asset.info, amount: ans[1] },
                fee: fee as u128,
            }
        }
    } else {
        OrderPlan::Fail(LimitOrderError::InvalidOrder)
    }
}

/// The outcome of settling an order that swaps `offer` for `ret` with the
/// PRISM fee `fee`: the messages (the swap, the asked asset to the bidder, any
/// excess of the return over the ask to the executor, the executor's share of
/// the fee to the executor, and the rest of the fee, where there is any, to
/// the fee collector), the executor's fee, the protocol's fee and the excess.
pub open spec fn settlement(
    cfg: Config,
    order: OrderInfo,
    executor: String,
    offer: Asset,
    ret: Asset,
    fee: u128,
) -> Result<(Seq<OrderAction>, u128, u128, u128), LimitOrderError> {
    let p = prism_info(cfg);
    if ret.amount < order.ask_asset.amount {
        Err(LimitOrderError::InsufficientReturn)
    } else {
        let swap = match offer.info {
            AssetInfo::Token { contract_addr } => OrderAction::SendToPair {
                token: contract_addr,
                pair: order.pair_addr,
                amount: offer.amount,
            },
            AssetInfo::NativeToken { denom } => OrderAction::SwapNative {
                pair: order.pair_addr,
                denom,
                amount: offer.amount,
            },
        };
        let excess = (ret.amount - order.ask_asset.amount) as u128;
        let head = seq![swap, OrderAction::SendAsset { asset: order.ask_asset, recipient: order.bidder_addr }];
        let with_excess = if excess > 0 {
            head.push(
                OrderAction::SendAsset {
                    asset: Asset { info: order.ask_asset.info, amount: excess },
                    recipient: executor,
                },
            )
        } else {
            head
        };
        let exec_fee = decimal_mul(fee as int, cfg.executor_fee_portion as int);
        if exec_fee > u128::MAX {
            Err(LimitOrderError::Aborted)
        } else if exec_fee > fee {
            Err(LimitOrderError::Overflow)
        } else {
            let protocol_fee = (fee - exec_fee) as u128;
            let with_exec = with_excess.push(
                OrderAction::SendAsset {
                    asset: Asset { info: p, amount: exec_fee as u128 },
                    recipient: executor,
                },
            );
            let actions = if protocol_fee != 0 {
                with_exec.push(
                    OrderAction::SendAsset {
                        asset: Asset { info: p, amount: protocol_fee },
                        recipient: cfg.fee_collector_addr,
                    },
                )
            } else {
                with_exec
            };
            Ok((actions, exec_fee as u128, protocol_fee, excess))
        }
    }
}

/// Settles an order that swaps `offer` for `ret` with the PRISM fee `fee`.
fn settle(cfg: &Config, order: &OrderInfo, executor: String, offer: Asset, ret: Asset, fee: u128) -> (r:
    Result<ExecutedOrder, LimitOrderError>)
    ensures
        match settlement(*cfg, *order, executor, offer, ret, fee) {
            Err(e) => r == Err::<ExecutedOrder, LimitOrderError>(e),
            Ok((actions, exec_fee, protocol_fee, excess)) => r is Ok && r->Ok_0.actions@ == actions
                && r->Ok_0.executor_fee_amount == exec_fee && r->Ok_0.protocol_fee_amount
                == protocol_fee && r->Ok_0.excess_amount == excess,
        },
{
    if ret.amount < order.ask_asset.amount {
        return Err(LimitOrderError::InsufficientReturn);
    }
    let swap = match offer.info {
        AssetInfo::Token { contract_addr } => OrderAction::SendToPair {
            token: contract_addr,
            pair: order.pair_addr.clone(),
            amount: offer.amount,
        },
        AssetInfo::NativeToken { denom } => OrderAction::SwapNative {
            pair: order.pair_addr.clone(),
            denom,
            amount: offer.amount,
        },
    };
    let mut actions: Vec<OrderAction> = Vec::new();
    actions.push(swap);
    actions.push(
        OrderAction::SendAsset {
            asset: copy_asset(&order.ask_asset),
            recipient: order.bidder_addr.clone(),
        },
    );
    let excess = ret.amount - order.ask_asset.amount;
    if excess > 0 {
        actions.push(
            OrderAction::SendAsset {
                asset: Asset { info: copy_info(&order.ask_asset.info), amount: excess },
                recipient: executor.clone(),
            },
        );
    }
    let exec_fee = match mul_decimal(fee, cfg.executor_fee_portion) {
        Some(v) => v,
        None => return Err(LimitOrderError::Aborted),
    };
    actions.push(
        OrderAction::SendAsset {
            asset: Asset {
                info: AssetInfo::Token { contract_addr: cfg.prism_token.clone() },
                amount: exec_fee,
            },
            recipient: executor,
        },
    );
    if exec_fee > fee {
        return Err(LimitOrderError::Overflow);
    }
    let protocol_fee = fee - exec_fee;
    if protocol_fee != 0 {
        actions.push(
            OrderAction::SendAsset {
                asset: Asset {
                    info: AssetInfo::Token { contract_addr: cfg.prism_token.clone() },
                    amount: protocol_fee,
                },
                recipient: cfg.fee_collector_addr.clone(),
            },
        );
    }
    proof {
        let sp = settlement(*cfg, *order, executor, offer, ret, fee);
        assert(sp is Ok);
        assert(actions@ =~= sp->Ok_0.0);
    }
    Ok(ExecutedOrder {
        actions,
        executor_fee_amount: exec_fee,
        protocol_fee_amount: protocol_fee,
        excess_amount: excess,
    })
}

/// Where an executed order's PRISM fee comes from, whatever the swap returns:
/// - offering PRISM (and asking for something else), the swap is sent the
///   offer less the fee, and the executor's and the protocol's fees together
///   are exactly the PRISM kept back from the offer: the `order_fee` share of
///   it, or, where that share sells for less than `min_fee_value` (first
///   answer), the PRISM that buys `min_fee_value` (second answer);
/// - asking for PRISM, the return of the swap (first answer) is exactly the
///   two fees plus what the bidder and the executor get of it, and the fees
///   are the `order_fee` share of the return, or, where that share sells for
///   less than `min_fee_value` (second answer), the PRISM that buys
///   `min_fee_value` (third answer).
pub proof fn lemma_fee_accounting(cfg: Config, order: OrderInfo, executor: String, ans: Seq<u128>)
    ensures
        order_plan(cfg, order, ans) matches OrderPlan::Settle { offer, ret, fee } ==> (settlement(
            cfg,
            order,
            executor,
            offer,
            ret,
            fee,
        ) matches Ok((actions, exec_fee, protocol_fee, excess)) ==> {
            let p = prism_info(cfg);
            let fees = exec_fee + protocol_fee;
            &&& same_info(order.offer_asset.info, p) && !same_info(order.ask_asset.info, p) ==> {
                &&& fees <= order.offer_asset.amount
                &&& actions.len() > 0
                &&& actions[0] == (OrderAction::SendToPair {
                    token: cfg.prism_token,
                    pair: order.pair_addr,
                    amount: (order.offer_asset.amount - fees) as u128,
                })
                &&& ans[0] < cfg.min_fee_value ==> fees == ans[1]
                &&& ans[0] >= cfg.min_fee_value ==> fees == decimal_mul(
                    order.offer_asset.amount as int,
                    cfg.order_fee as int,
                )
            }
            &&& same_info(order.ask_asset.info, p) ==> {
                &&& fees + order.ask_asset.amount + excess == ans[0]
                &&& ans[1] < cfg.min_fee_value ==> fees == ans[2]
                &&& ans[1] >= cfg.min_fee_value ==> fees == decimal_mul(
                    ans[0] as int,
                    cfg.order_fee as int,
                )
            }
        }),
{
}

/// Executes an order on behalf of `executor`, one query at a time: `answers`
/// are the answers to the queries asked so far, in order. Returns the next
/// query to answer (the caller appends its answer and calls again) or the
/// executed order. The steps follow `order_plan`; the settlement follows
/// `settlement`. The caller deletes an executed order.
pub fn execute_order(cfg: &Config, order: &OrderInfo, executor: String, answers: &Vec<u128>) -> (r:
    Result<ExecuteStep, LimitOrderError>)
    ensures
        match order_plan(*cfg, *order, answers@) {
            OrderPlan::Ask(q) => r == Ok::<ExecuteStep, LimitOrderError>(ExecuteStep::Query(q)),
            OrderPlan::Fail(e) => r == Err::<ExecuteStep, LimitOrderError>(e),
            OrderPlan::Settle { offer, ret, fee } => match settlement(
                *cfg,
                *order,
                executor,
                offer,
                ret,
                fee,
            ) {
                Err(e) => r == Err::<ExecuteStep, LimitOrderError>(e),
                Ok((actions, exec_fee, protocol_fee, excess)) => r matches Ok(ExecuteStep::Done(d))
                    && d.actions@ == actions && d.executor_fee_amount == exec_fee
                    && d.protocol_fee_amount == protocol_fee && d.excess_amount == excess,
            },
        },
        r matches Ok(ExecuteStep::Done(d)) ==> {
            let p = prism_info(*cfg);
            let fees = d.executor_fee_amount + d.protocol_fee_amount;
            &&& same_info(order.offer_asset.info, p) && !same_info(order.ask_asset.info, p) ==> {
                &&& fees <= order.offer_asset.amount
                &&& d.actions@.len() > 0
                &&& d.actions@[0] == (OrderAction::SendToPair {
                    token: cfg.prism_token,
                    pair: order.pair_addr,
                    amount: (order.offer_asset.amount - fees) as u128,
                })
                &&& answers@[0] < cfg.min_fee_value ==> fees == answers@[1]
                &&& answers@[0] >= cfg.min_fee_value ==> fees == decimal_mul(
                    order.offer_asset.amount as int,
                    cfg.order_fee as int,
                )
            }
            &&& same_info(order.ask_asset.info, p) ==> {
                &&& fees + order.ask_asset.amount + d.excess_amount == answers@[0]
                &&& answers@[1] < cfg.min_fee_value ==> fees == answers@[2]
                &&& answers@[1] >= cfg.min_fee_value ==> fees == decimal_mul(
                    answers@[0] as int,
                    cfg.order_fee as int,
                )
            }
        },
{
    proof {
        lemma_fee_accounting(*cfg, *order, executor, answers@);
    }
    let p = AssetInfo::Token { contract_addr: cfg.prism_token.clone() };
    let min_fee_asset = Asset {
        info: AssetInfo::NativeToken { denom: cfg.base_denom.clone() },
        amount: cfg.min_fee_value,
    };
    let n = answers.len();
    let (offer, ret, fee): (Asset, Asset, u128) = if info_equal(&order.ask_asset.info, &p) {
        if n == 0 {
            return Ok(
                ExecuteStep::Query(
                    OrderQuery::Simulate {
                        pair: order.pair_addr.clone(),
                        offer: copy_asset(&order.offer_asset),
                    },
                ),
            );
        }
        let r = answers[0];
        let fee = match mul_decimal(r, cfg.order_fee) {
            Some(v) => v,
            None => return Err(LimitOrderError::Aborted),
        };
        if n == 1 {
            return Ok(
                ExecuteStep::Query(
                    OrderQuery::Simulate {
                        pair: cfg.prism_ust_pair.clone(),
                        offer: Asset { info: p, amount: fee },
                    },
                ),
            );
        }
        if answers[1] < cfg.min_fee_value {
            if n == 2 {
                return Ok(
                    ExecuteStep::Query(
                        OrderQuery::ReverseSimulate {
                            pair: cfg.prism_ust_pair.clone(),
                            ask: min_fee_asset,
                        },
                    ),
                );
            }
            let bought = answers[2];
            if bought > r {
                return Err(LimitOrderError::Overflow);
            }
            (copy_asset(&order.offer_asset), Asset { info: p, amount: r - bought }, bought)
        } else {
            if fee > r {
                return Err(LimitOrderError::Overflow);
            }
            (copy_asset(&order.offer_asset), Asset { info: p, amount: r - fee }, fee)
        }
    } else if info_equal(&order.offer_asset.info, &p) {
        let amount = order.offer_asset.amount;
        let fee = match mul_decimal(amount, cfg.order_fee) {
            Some(v) => v,
            None => return Err(LimitOrderError::Aborted),
        };
        if n == 0 {
            return Ok(
                ExecuteStep::Query(
                    OrderQuery::Simulate {
                        pair: cfg.prism_ust_pair.clone(),
                        offer: Asset { info: p, amount: fee },
                    },
                ),
            );
        }
        let (offered, taken, next): (u128, u128, usize) = if answers[0] < cfg.min_fee_value {
            if n == 1 {
                return Ok(
                    ExecuteStep::Query(
                        OrderQuery::ReverseSimulate {
                            pair: cfg.prism_ust_pair.clone(),
                            ask: min_fee_asset,
                        },
                    ),
                );
            }
            let bought = answers[1];
            if bought > amount {
                return Err(LimitOrderError::Overflow);
            }
            (amount - bought, bought, 2)
        } else {
            if fee > amount {
                return Err(LimitOrderError::Overflow);
            }
            (amount - fee, fee, 1)
        };
        if n == next {
            return Ok(
                ExecuteStep::Query(
                    OrderQuery::Simulate {
                        pair: order.pair_addr.clone(),
                        offer: Asset { info: p, amount: offered },
                    },
                ),
            );
        }
        let returned = answers[next];
        (
            Asset { info: p, amount: offered },
            Asset { info: copy_info(&order.ask_asset.info), amount: returned },
            taken,
        )
    } else {
        return Err(LimitOrderError::InvalidOrder);
    };
    let done = settle(cfg, order, executor, offer, ret, fee)?;
    Ok(ExecuteStep::Done(done))
}

/// A whole decimal, in atomic units.
pub const ONE: u128 = 1_000_000_000_000_000_000u128;

/// Checks that a fee (a decimal in atomic units) is at most one.
pub fn assert_fee(fee: u128) -> (r: Result<(), LimitOrderError>)
    ensures
        r == if fee > DECIMAL_FRACTIONAL {
            Err::<(), LimitOrderError>(LimitOrderError::FeeTooLarge)
        } else {
            Ok::<(), LimitOrderError>(())
        },
{
    if fee > ONE {
        return Err(LimitOrderError::FeeTooLarge);
    }
    Ok(())
}

/// Checks an instantiation and returns the configuration to store; the
/// sender becomes the owner. The last order id starts at 0.
pub fn instantiate(
    sender: String,
    base_denom: String,
    fee_collector_addr: String,
    prism_token: String,
    prism_ust_pair: String,
    order_fee: u128,
    min_fee_value: u128,
    executor_fee_portion: u128,
    excess_collector_addr: String,
) -> (r: Result<Config, LimitOrderError>)
    ensures
        r == if order_fee > DECIMAL_FRACTIONAL || executor_fee_portion > DECIMAL_FRACTIONAL {
            Err::<Config, LimitOrderError>(LimitOrderError::FeeTooLarge)
        } else {
            Ok::<Config, LimitOrderError>(
                Config {
                    base_denom,
                    owner: sender,
                    fee_collector_addr,
                    prism_token,
                    prism_ust_pair,
                    order_fee,
                    min_fee_value,
                    executor_fee_portion,
                    excess_collector_addr,
                },
            )
        },
{
    assert_fee(order_fee)?;
    assert_fee(executor_fee_portion)?;
    Ok(
        Config {
            base_denom,
            owner: sender,
            fee_collector_addr,
            prism_token,
            prism_ust_pair,
            order_fee,
            min_fee_value,
            executor_fee_portion,
            excess_collector_addr,
        },
    )
}

/// The new value of a setting: `new` where it is given, else `old`.
pub open spec fn or_keep<T>(new: Option<T>, old: T) -> T {
    match new {
        Some(v) => v,
        None => old,
    }
}

/// The owner changes settings; each given one replaces the stored one, the
/// fees after a check that they are at most one.
pub fn update_config(
    cfg: Config,
    sender: &String,
    owner: Option<String>,
    fee_collector_addr: Option<String>,
    order_fee: Option<u128>,
    min_fee_value: Option<u128>,
    executor_fee_portion: Option<u128>,
) -> (r: Result<Config, LimitOrderError>)
    ensures
        sender@ != cfg.owner@ ==> r == Err::<Config, LimitOrderError>(LimitOrderError::Unauthorized),
        sender@ == cfg.owner@ ==> r == if (order_fee matches Some(f) && f > DECIMAL_FRACTIONAL) || (
        executor_fee_portion matches Some(f) && f > DECIMAL_FRACTIONAL) {
            Err::<Config, LimitOrderError>(LimitOrderError::FeeTooLarge)
        } else {
            Ok::<Config, LimitOrderError>(
                Config {
                    owner: or_keep(owner, cfg.owner),
                    fee_collector_addr: or_keep(fee_collector_addr, cfg.fee_collector_addr),
                    order_fee: or_keep(order_fee, cfg.order_fee),
                    min_fee_value: or_keep(min_fee_value, cfg.min_fee_value),
                    executor_fee_portion: or_keep(executor_fee_portion, cfg.executor_fee_portion),
                    ..cfg
                },
            )
        },
{
    if *sender != cfg.owner {
        return Err(LimitOrderError::Unauthorized);
    }
    let mut cfg = cfg;
    if let Some(o) = owner {
        cfg.owner = o;
    }
    if let Some(f) = fee_collector_addr {
        cfg.fee_collector_addr = f;
    }
    if let Some(f) = order_fee {
        assert_fee(f)?;
        cfg.order_fee = f;
    }
    if let Some(m) = min_fee_value {
        cfg.min_fee_value = m;
    }
    if let Some(f) = executor_fee_portion {
        assert_fee(f)?;
        cfg.executor_fee_portion = f;
    }
    Ok(cfg)
}

/// Whether the byte string `a` orders at or before `b` (lexicographically, a
/// prefix first).
pub open spec fn lex_le(a: Seq<u8>, b: Seq<u8>) -> bool
    decreases a.len(),
{
    if a.len() == 0 {
        true
    } else if b.len() == 0 {
        false
    } else if a[0] != b[0] {
        a[0] < b[0]
    } else {
        lex_le(a.drop_first(), b.drop_first())
    }
}

/// Compares two byte strings lexicographically.
pub(crate) fn bytes_le(a: &[u8], b: &[u8]) -> (r: bool)
    ensures
        r == lex_le(a@, b@),
{
    let mut i: usize = 0;
    proof {
        assert(a@.skip(0) =~= a@);
        assert(b@.skip(0) =~= b@);
    }
    while i < a.len() && i < b.len() && a[i] == b[i]
        invariant
            0 <= i <= a@.len(),
            i <= b@.len(),
            lex_le(a@, b@) == lex_le(a@.skip(i as int), b@.skip(i as int)),
        decreases a@.len() - i,
    {
        proof {
            assert(a@.skip(i as int).drop_first() =~= a@.skip(i + 1));
            assert(b@.skip(i as int).drop_first() =~= b@.skip(i + 1));
        }
        i = i + 1;
    }
    if i == a.len() {
        true
    } else if i == b.len() {
        false
    } else {
        a[i] < b[i]
    }
}

/// The bytes that identify an asset kind: the token's address or the coin's
/// denomination, as UTF-8.
pub open spec fn info_bytes(a: AssetInfo) -> Seq<u8> {
    match a {
        AssetInfo::Token { contract_addr } => encode_utf8(contract_addr@),
        AssetInfo::NativeToken { denom } => encode_utf8(denom@),
    }
}

/// The bytes that identify an asset kind.
fn info_as_bytes(a: &AssetInfo) -> (r: Vec<u8>)
    ensures
        r@ == info_bytes(*a),
{
    match a {
        AssetInfo::Token { contract_addr } => slice_to_vec(contract_addr.as_str().as_bytes()),
        AssetInfo::NativeToken { denom } => slice_to_vec(denom.as_str().as_bytes()),
    }
}

/// The key of the pair of two asset kinds: their identifying bytes in
/// ascending order, concatenated, so that either order gives the same key.
pub open spec fn pair_key(a: AssetInfo, b: AssetInfo) -> Seq<u8> {
    sorted_concat(info_bytes(a), info_bytes(b))
}

/// The two byte strings in ascending order, concatenated.
pub open spec fn sorted_concat(a: Seq<u8>, b: Seq<u8>) -> Seq<u8> {
    if lex_le(a, b) {
        a + b
    } else {
        b + a
    }
}

/// Concatenates two byte strings in ascending order.
pub fn sorted_key(a: Vec<u8>, b: Vec<u8>) -> (r: Vec<u8>)
    ensures
        r@ == sorted_concat(a@, b@),
{
    let (mut first, second) = if bytes_le(a.as_slice(), b.as_slice()) {
        (a, b)
    } else {
        (b, a)
    };
    let ghost start = first@;
    let mut i: usize = 0;
    while i < second.len()
        invariant
            0 <= i <= second@.len(),
            first@ == start + second@.take(i as int),
        decreases second@.len() - i,
    {
        first.push(second[i]);
        i = i + 1;
        proof {
            assert(first@ =~= start + second@.take(i as int));
        }
    }
    proof {
        assert(second@.take(i as int) =~= second@);
    }
    first
}

/// The storage key of the pair of `asset_infos`.
pub fn generate_pair_key(asset_infos: &[AssetInfo; 2]) -> (r: Vec<u8>)
    ensures
        r@ == pair_key(asset_infos@[0], asset_infos@[1]),
{
    sorted_key(info_as_bytes(&asset_infos[0]), info_as_bytes(&asset_infos[1]))
}

/// The owner registers the pair `pair_addr` for `asset_infos`, one of which
/// must be PRISM. `pair_exists` says whether a pair is already stored under
/// `generate_pair_key(asset_infos)`. Returns the key to store the pair under.
pub fn add_pair(
    cfg: &Config,
    sender: &String,
    asset_infos: &[AssetInfo; 2],
    pair_exists: bool,
) -> (r: Result<Vec<u8>, LimitOrderError>)
    ensures
        sender@ != cfg.owner@ ==> r == Err::<Vec<u8>, LimitOrderError>(LimitOrderError::Unauthorized),
        sender@ == cfg.owner@ && !same_info(asset_infos@[0], prism_info(*cfg)) && !same_info(
            asset_infos@[1],
            prism_info(*cfg),
        ) ==> r == Err::<Vec<u8>, LimitOrderError>(LimitOrderError::NoPrismAsset),
        sender@ == cfg.owner@ && (same_info(asset_infos@[0], prism_info(*cfg)) || same_info(
            asset_infos@[1],
            prism_info(*cfg),
        )) ==> if pair_exists {
            r == Err::<Vec<u8>, LimitOrderError>(LimitOrderError::PairExists)
        } else {
            r matches Ok(k) && k@ == pair_key(asset_infos@[0], asset_infos@[1])
        },
{
    if *sender != cfg.owner {
        return Err(LimitOrderError::Unauthorized);
    }
    let p = AssetInfo::Token { contract_addr: cfg.prism_token.clone() };
    if !info_equal(&asset_infos[0], &p) && !info_equal(&asset_infos[1], &p) {
        return Err(LimitOrderError::NoPrismAsset);
    }
    let key = generate_pair_key(asset_infos);
    if pair_exists {
        return Err(LimitOrderError::PairExists);
    }
    Ok(key)
}

/// The amount of the first coin of denomination `denom` among `funds`, if any.
pub open spec fn sent_amount(funds: Seq<Coin>, denom: Seq<char>) -> Option<u128>
    decreases funds.len(),
{
    if funds.len() == 0 {
        None
    } else if funds[0].denom@ == denom {
        Some(funds[0].amount)
    } else {
        sent_amount(funds.drop_first(), denom)
    }
}

/// Whether the coins sent match a native `asset`: the first coin of its
/// denomination carries exactly its amount, or there is none and the amount
/// is zero. A token asset always matches.
pub open spec fn native_sent(asset: Asset, funds: Seq<Coin>) -> bool {
    match asset.info {
        AssetInfo::NativeToken { denom } => match sent_amount(funds, denom@) {
            Some(a) => a == asset.amount,
            None => asset.amount == 0,
        },
        AssetInfo::Token { .. } => true,
    }
}

/// Checks that the coins sent match a native `asset`.
pub fn assert_sent_native_token_balance(asset: &Asset, funds: &Vec<Coin>) -> (r: Result<
    (),
    LimitOrderError,
>)
    ensures
        r == if native_sent(*asset, funds@) {
            Ok::<(), LimitOrderError>(())
        } else {
            Err::<(), LimitOrderError>(LimitOrderError::NativeBalanceMismatch)
        },
{
    let denom = match &asset.info {
        AssetInfo::Token { .. } => return Ok(()),
        AssetInfo::NativeToken { denom } => denom,
    };
    let mut i: usize = 0;
    proof {
        assert(funds@.skip(0) =~= funds@);
    }
    while i < funds.len()
        invariant
            0 <= i <= funds@.len(),
            sent_amount(funds@, denom@) == sent_amount(funds@.skip(i as int), denom@),
            native_sent(*asset, funds@) == match sent_amount(funds@, denom@) {
                Some(a) => a == asset.amount,
                None => asset.amount == 0,
            },
        decreases funds@.len() - i,
    {
        proof {
            assert(funds@.skip(i as int).drop_first() =~= funds@.skip(i + 1));
            assert(funds@.skip(i as int)[0] == funds@[i as int]);
        }
        if funds[i].denom == *denom {
            if funds[i].amount == asset.amount {
                return Ok(());
            }
            return Err(LimitOrderError::NativeBalanceMismatch);
        }
        i = i + 1;
    }
    if asset.amount == 0 {
        Ok(())
    } else {
        Err(LimitOrderError::NativeBalanceMismatch)
    }
}

/// The next order id after `last_order_id`, with the order taking it.
pub fn store_new_order(last_order_id: u64, order: OrderInfo) -> (r: Result<OrderInfo, LimitOrderError>)
    ensures
        last_order_id == u64::MAX ==> r == Err::<OrderInfo, LimitOrderError>(LimitOrderError::Aborted),
        last_order_id < u64::MAX ==> r == Ok::<OrderInfo, LimitOrderError>(
            OrderInfo { order_id: (last_order_id + 1) as u64, ..order },
        ),
{
    if last_order_id == u64::MAX {
        return Err(LimitOrderError::Aborted);
    }
    Ok(OrderInfo { order_id: last_order_id + 1, ..order })
}

/// A bidder submits an order offering `offer_asset` for at least `ask_asset`.
/// `pair_addr` is the pair stored under the key of the two assets, if any;
/// `funds` are the coins sent along. Returns the order to store under the next
/// id (`last_order_id + 1`, which becomes the last order id).
pub fn submit_order(
    sender: String,
    funds: &Vec<Coin>,
    offer_asset: Asset,
    ask_asset: Asset,
    pair_addr: Option<String>,
    last_order_id: u64,
) -> (r: Result<OrderInfo, LimitOrderError>)
    ensures
        pair_addr is None ==> r == Err::<OrderInfo, LimitOrderError>(
            LimitOrderError::PairNotSupported,
        ),
        pair_addr is Some && !native_sent(offer_asset, funds@) ==> r == Err::<
            OrderInfo,
            LimitOrderError,
        >(LimitOrderError::NativeBalanceMismatch),
        pair_addr is Some && native_sent(offer_asset, funds@) && last_order_id == u64::MAX ==> r
            == Err::<OrderInfo, LimitOrderError>(LimitOrderError::Aborted),
        pair_addr is Some && native_sent(offer_asset, funds@) && last_order_id < u64::MAX ==> r
            == Ok::<OrderInfo, LimitOrderError>(
            OrderInfo {
                order_id: (last_order_id + 1) as u64,
                bidder_addr: sender,
                pair_addr: pair_addr->Some_0,
                inter_pair_addr: None,
                offer_asset,
                ask_asset,
            },
        ),
{
    let pair = match pair_addr {
        Some(p) => p,
        None => return Err(LimitOrderError::PairNotSupported),
    };
    assert_sent_native_token_balance(&offer_asset, funds)?;
    store_new_order(
        last_order_id,
        OrderInfo {
            order_id: 0,
            bidder_addr: sender,
            pair_addr: pair,
            inter_pair_addr: None,
            offer_asset,
            ask_asset,
        },
    )
}

/// The bidder cancels an order (`None` where it does not exist): the order is
/// deleted and its offer refunded.
pub fn cancel_order(order: Option<OrderInfo>, sender: &String) -> (r: Result<
    (OrderInfo, OrderAction),
    LimitOrderError,
>)
    ensures
        order is None ==> r == Err::<(OrderInfo, OrderAction), LimitOrderError>(
            LimitOrderError::OrderNotFound,
        ),
        order is Some && order->Some_0.bidder_addr@ != sender@ ==> r == Err::<
            (OrderInfo, OrderAction),
            LimitOrderError,
        >(LimitOrderError::Unauthorized),
        order is Some && order->Some_0.bidder_addr@ == sender@ ==> r == Ok::<
            (OrderInfo, OrderAction),
            LimitOrderError,
        >(
            (
                order->Some_0,
                OrderAction::SendAsset {
                    asset: order->Some_0.offer_asset,
                    recipient: order->Some_0.bidder_addr,
                },
            ),
        ),
{
    let o = match order {
        Some(o) => o,
        None => return Err(LimitOrderError::OrderNotFound),
    };
    if o.bidder_addr != *sender {
        return Err(LimitOrderError::Unauthorized);
    }
    let refund = OrderAction::SendAsset {
        asset: copy_asset(&o.offer_asset),
        recipient: o.bidder_addr.clone(),
    };
    Ok((o, refund))
}

pub(crate) proof fn lemma_lex_total(a: Seq<u8>, b: Seq<u8>)
    ensures
        lex_le(a, b) || lex_le(b, a),
        lex_le(a, b) && lex_le(b, a) ==> a == b,
    decreases a.len(),
{
    if a.len() > 0 && b.len() > 0 && a[0] == b[0] {
        lemma_lex_total(a.drop_first(), b.drop_first());
        if lex_le(a, b) && lex_le(b, a) {
            assert(a =~= seq![a[0]] + a.drop_first());
            assert(b =~= seq![b[0]] + b.drop_first());
        }
    } else if a.len() == 0 && b.len() == 0 {
        assert(a =~= b);
    }
}

/// Two byte strings concatenated in ascending order give one key whichever
/// order they are given in.
pub proof fn lemma_sorted_concat_symmetric(a: Seq<u8>, b: Seq<u8>)
    ensures
        sorted_concat(a, b) == sorted_concat(b, a),
{
    lemma_lex_total(a, b);
}

/// A pair has one key whichever order its two assets are given in.
pub proof fn lemma_pair_key_symmetric(a: AssetInfo, b: AssetInfo)
    ensures
        pair_key(a, b) == pair_key(b, a),
{
    lemma_sorted_concat_symmetric(info_bytes(a), info_bytes(b));
}

/// The direction of an order listing.
#[derive(Clone, Copy, Debug, PartialEq, Eq)]
pub enum OrderBy {
    Asc,
    Desc,
}

/// The listing length when none is asked for.
pub const DEFAULT_LIMIT: u32 = 10;

/// The longest listing.
pub const MAX_LIMIT: u32 = 30;

/// A copy of an order.
pub fn copy_order(o: &OrderInfo) -> (r: OrderInfo)
    ensures
        r == *o,
{
    OrderInfo {
        order_id: o.order_id,
        bidder_addr: o.bidder_addr.clone(),
        pair_addr: o.pair_addr.clone(),
        inter_pair_addr: match &o.inter_pair_addr {
            Some(p) => Some(p.clone()),
            None => None,
        },
        offer_asset: copy_asset(&o.offer_asset),
        ask_asset: copy_asset(&o.ask_asset),
    }
}

/// How many orders a listing holds at most: `limit` (10 where absent), at
/// most 30.
pub open spec fn listing_limit(limit: Option<u32>) -> nat {
    let l = match limit {
        Some(l) => l as nat,
        None => DEFAULT_LIMIT as nat,
    };
    if l < MAX_LIMIT as nat {
        l
    } else {
        MAX_LIMIT as nat
    }
}

/// Whether a listing takes the order `o`: it belongs to `user` (where a user
/// is given) and its id is above `start_after` in an ascending listing, at
/// most `start_after` in a descending one (whose exclusive end key is the one
/// just after `start_after`).
pub open spec fn order_listed(o: OrderInfo, user: Option<String>, start_after: Option<u64>, ascending: bool) -> bool {
    &&& match user {
        Some(u) => o.bidder_addr@ == u@,
        None => true,
    }
    &&& match start_after {
        Some(id) => if ascending {
            o.order_id > id
        } else {
            o.order_id <= id
        },
        None => true,
    }
}

/// The `m`-th order a listing visits: from the front of the store going up,
/// from its back going down.
pub open spec fn visited(orders: Seq<OrderInfo>, ascending: bool, m: int) -> OrderInfo {
    if ascending {
        orders[m]
    } else {
        orders[orders.len() - 1 - m]
    }
}

/// The orders a listing takes among the first `m` it visits, in visiting
/// order.
pub open spec fn listed(
    orders: Seq<OrderInfo>,
    user: Option<String>,
    start_after: Option<u64>,
    ascending: bool,
    m: nat,
) -> Seq<OrderInfo>
    decreases m,
{
    if m == 0 {
        Seq::empty()
    } else {
        let prev = listed(orders, user, start_after, ascending, (m - 1) as nat);
        let o = visited(orders, ascending, m - 1);
        if order_listed(o, user, start_after, ascending) {
            prev.push(o)
        } else {
            prev
        }
    }
}

/// At most `n` elements of `s`, from its front.
pub open spec fn at_most<A>(s: Seq<A>, n: nat) -> Seq<A> {
    if s.len() <= n {
        s
    } else {
        s.take(n as int)
    }
}

/// A page of the store `orders` (all orders in increasing key order, which is
/// increasing id order): those that `order_listed` takes, ascending when
/// `order_by` is `Asc` and descending otherwise,
/// at most `listing_limit(limit)` of them.
pub open spec fn orders_page(
    orders: Seq<OrderInfo>,
    user: Option<String>,
    start_after: Option<u64>,
    limit: Option<u32>,
    order_by: Option<OrderBy>,
) -> Seq<OrderInfo> {
    let ascending = order_by == Some(OrderBy::Asc);
    at_most(listed(orders, user, start_after, ascending, orders.len()), listing_limit(limit))
}

fn page_orders(
    orders: &Vec<OrderInfo>,
    user: Option<&String>,
    start_after: Option<u64>,
    limit: Option<u32>,
    order_by: Option<OrderBy>,
) -> (r: Vec<OrderInfo>)
    ensures
        r@ == orders_page(
            orders@,
            match user {
                Some(u) => Some(*u),
                None => None,
            },
            start_after,
            limit,
            order_by,
        ),
{
    let ghost user_v: Option<String> = match user {
        Some(u) => Some(*u),
        None => None,
    };
    let max: usize = match limit {
        Some(l) => if l < MAX_LIMIT {
            l as usize
        } else {
            MAX_LIMIT as usize
        },
        None => DEFAULT_LIMIT as usize,
    };
    let ascending = match order_by {
        Some(OrderBy::Asc) => true,
        _ => false,
    };
    let n = orders.len();
    let mut out: Vec<OrderInfo> = Vec::new();
    let mut m: usize = 0;
    while m < n
        invariant
            n == orders@.len(),
            0 <= m <= n,
            max == listing_limit(limit),
            ascending == (order_by == Some(OrderBy::Asc)),
            user_v == match user {
                Some(u) => Some(*u),
                None => None::<String>,
            },
            out@ == at_most(listed(orders@, user_v, start_after, ascending, m as nat), max as nat),
        decreases n - m,
    {
        let o = if ascending {
            &orders[m]
        } else {
            &orders[n - 1 - m]
        };
        let belongs = match user {
            Some(u) => o.bidder_addr == *u,
            None => true,
        };
        let beyond = match start_after {
            Some(id) => if ascending {
                o.order_id > id
            } else {
                o.order_id <= id
            },
            None => true,
        };
        proof {
            let prev = listed(orders@, user_v, start_after, ascending, m as nat);
            assert(*o == visited(orders@, ascending, m as int));
            assert(belongs && beyond <==> order_listed(*o, user_v, start_after, ascending));
            if prev.len() > max {
                assert(prev.take(max as int) =~= prev.push(*o).take(max as int));
            }
        }
        if belongs && beyond && out.len() < max {
            out.push(copy_order(o));
        }
        m = m + 1;
    }
    out
}

/// A page of all orders; `orders` is the whole store in increasing id order.
pub fn read_orders(
    orders: &Vec<OrderInfo>,
    start_after: Option<u64>,
    limit: Option<u32>,
    order_by: Option<OrderBy>,
) -> (r: Vec<OrderInfo>)
    ensures
        r@ == orders_page(orders@, None, start_after, limit, order_by),
{
    page_orders(orders, None, start_after, limit, order_by)
}

/// A page of the orders of `user`; `orders` is the whole store in increasing
/// id order.
pub fn read_orders_by_user(
    orders: &Vec<OrderInfo>,
    user: &String,
    start_after: Option<u64>,
    limit: Option<u32>,
    order_by: Option<OrderBy>,
) -> (r: Vec<OrderInfo>)
    ensures
        r@ == orders_page(orders@, Some(*user), start_after, limit, order_by),
{
    page_orders(orders, Some(user), start_after, limit, order_by)
}

/// Executing an order splits its PRISM fee between the executor and the
/// protocol without remainder, and the return of the swap goes wholly to the
/// bidder (the asked amount) and the executor (the excess).
pub proof fn lemma_settlement_conserves(
    cfg: Config,
    order: OrderInfo,
    executor: String,
    offer: Asset,
    ret: Asset,
    fee: u128,
)
    requires
        settlement(cfg, order, executor, offer, ret, fee) is Ok,
    ensures
        ({
            let (_actions, exec_fee, protocol_fee, excess) = settlement(
                cfg,
                order,
                executor,
                offer,
                ret,
                fee,
            )->Ok_0;
            &&& exec_fee + protocol_fee == fee
            &&& order.ask_asset.amount + excess == ret.amount
        }),
{
}

proof fn lemma_lex_after_prefix(a: Seq<u8>, b: Seq<u8>)
    requires
        a.len() == b.len(),
    ensures
        lex_le(a.push(1u8), b) <==> (lex_le(a, b) && a != b),
    decreases a.len(),
{
    if a.len() == 0 {
        assert(a =~= b);
    } else {
        assert(a.push(1u8).drop_first() =~= a.drop_first().push(1u8));
        if a[0] == b[0] {
            lemma_lex_after_prefix(a.drop_first(), b.drop_first());
            if a.drop_first() == b.drop_first() {
                assert(a =~= seq![a[0]] + a.drop_first());
                assert(b =~= seq![b[0]] + b.drop_first());
            }
        }
    }
}

/// `256` to the power `n`.
pub open spec fn pow256(n: nat) -> nat
    decreases n,
{
    if n == 0 {
        1
    } else {
        256 * pow256((n - 1) as nat)
    }
}

proof fn lemma_lex_push(p: Seq<u8>, q: Seq<u8>, x: u8, y: u8)
    requires
        p.len() == q.len(),
    ensures
        lex_le(p.push(x), q.push(y)) <==> ((lex_le(p, q) && p != q) || (p == q && x <= y)),
    decreases p.len(),
{
    if p.len() == 0 {
        assert(p =~= q);
        reveal_with_fuel(lex_le, 2);
        assert(p.push(x).drop_first() =~= p);
        assert(q.push(y).drop_first() =~= q);
    } else {
        assert(p.push(x).drop_first() =~= p.drop_first().push(x));
        assert(q.push(y).drop_first() =~= q.drop_first().push(y));
        if p[0] == q[0] {
            lemma_lex_push(p.drop_first(), q.drop_first(), x, y);
            assert(p =~= seq![p[0]] + p.drop_first());
            assert(q =~= seq![q[0]] + q.drop_first());
        }
    }
}

proof fn lemma_lex_before_extension(b: Seq<u8>, a: Seq<u8>, c: u8)
    requires
        a.len() == b.len(),
    ensures
        lex_le(b, a.push(c)) <==> lex_le(b, a),
    decreases a.len(),
{
    if a.len() > 0 {
        assert(a.push(c).drop_first() =~= a.drop_first().push(c));
        if a[0] == b[0] {
            lemma_lex_before_extension(b.drop_first(), a.drop_first(), c);
        }
    }
}

proof fn lemma_be_bytes_n_order(x: nat, y: nat, n: nat)
    requires
        x < pow256(n),
        y < pow256(n),
    ensures
        be_bytes_n(x, n).len() == n,
        be_bytes_n(y, n).len() == n,
        lex_le(be_bytes_n(x, n), be_bytes_n(y, n)) <==> x <= y,
        be_bytes_n(x, n) == be_bytes_n(y, n) <==> x == y,
    decreases n,
{
    if n == 0 {
        assert(be_bytes_n(x, n) =~= be_bytes_n(y, n));
    } else {
        let p = pow256((n - 1) as nat);
        assert(x / 256 < p && y / 256 < p) by (nonlinear_arith)
            requires
                x < 256 * p,
                y < 256 * p,
        ;
        lemma_be_bytes_n_order(x / 256, y / 256, (n - 1) as nat);
        let bx = be_bytes_n(x / 256, (n - 1) as nat);
        let by = be_bytes_n(y / 256, (n - 1) as nat);
        let lx = (x % 256) as u8;
        let ly = (y % 256) as u8;
        lemma_lex_push(bx, by, lx, ly);
        assert(lx == x % 256 && ly == y % 256);
        assert(x == 256 * (x / 256) + x % 256);
        assert(y == 256 * (y / 256) + y % 256);
        if be_bytes_n(x, n) == be_bytes_n(y, n) {
            assert(bx.push(lx)[n - 1] == by.push(ly)[n - 1]);
            assert(bx =~= bx.push(lx).drop_last());
            assert(by =~= by.push(ly).drop_last());
        }
    }
}

/// Storage keys of order ids sort as the ids do: the key of `a` comes at or
/// before the key of `b` exactly when `a <= b`, and two ids share a key only
/// when they are equal.
pub proof fn lemma_key_order(a: u64, b: u64)
    ensures
        be_bytes(a).len() == 8,
        be_bytes(b).len() == 8,
        lex_le(be_bytes(a), be_bytes(b)) <==> a <= b,
        be_bytes(a) == be_bytes(b) <==> a == b,
{
    assert(pow256(8) == 0x1_0000_0000_0000_0000) by {
        reveal_with_fuel(pow256, 9);
    }
    lemma_be_bytes_n_order(a as nat, b as nat, 8);
}

/// The start key of an ascending listing after `id` (`calc_range_start`)
/// skips exactly the orders up to `id`: the key of order `k` comes at or after
/// it exactly when `k > id`.
pub proof fn lemma_range_start_order(id: u64, k: u64)
    ensures
        lex_le(be_bytes(id).push(1u8), be_bytes(k)) <==> k > id,
{
    lemma_key_order(id, k);
    lemma_lex_after_prefix(be_bytes(id), be_bytes(k));
}

/// The end key of a descending listing from `id` (`calc_range_end`), taken
/// as an exclusive bound, keeps exactly the orders up to `id`: the key of
/// order `k` comes strictly before it exactly when `k <= id`.
pub proof fn lemma_range_end_order(id: u64, k: u64)
    ensures
        (lex_le(be_bytes(k), be_bytes(id).push(1u8)) && be_bytes(k) != be_bytes(id).push(1u8))
            <==> k <= id,
{
    lemma_key_order(k, id);
    lemma_key_order(id, k);
    lemma_lex_before_extension(be_bytes(k), be_bytes(id), 1u8);
    assert(be_bytes(k).len() != be_bytes(id).push(1u8).len());
}

/// Whether the ids of `s` strictly decrease.
pub open spec fn ids_decreasing(s: Seq<OrderInfo>) -> bool {
    forall|i: int, j: int| 0 <= i < j < s.len() ==> s[i].order_id > s[j].order_id
}

/// Whether the ids of `s` strictly increase, as the store keeps its orders.
pub open spec fn ids_increasing(s: Seq<OrderInfo>) -> bool {
    forall|i: int, j: int| 0 <= i < j < s.len() ==> s[i].order_id < s[j].order_id
}

proof fn lemma_listed_descending(
    orders: Seq<OrderInfo>,
    user: Option<String>,
    start_after: Option<u64>,
    m: nat,
)
    requires
        ids_increasing(orders),
        m <= orders.len(),
    ensures
        ids_decreasing(listed(orders, user, start_after, false, m)),
        m < orders.len() ==> forall|i: int|
            0 <= i < listed(orders, user, start_after, false, m).len() ==> (#[trigger] listed(
                orders,
                user,
                start_after,
                false,
                m,
            )[i]).order_id > orders[orders.len() - 1 - m].order_id,
    decreases m,
{
    if m > 0 {
        lemma_listed_descending(orders, user, start_after, (m - 1) as nat);
        let prev = listed(orders, user, start_after, false, (m - 1) as nat);
        let cur = listed(orders, user, start_after, false, m);
        let o = orders[orders.len() - m];
        assert(visited(orders, false, m - 1) == o);
        assert forall|i: int| 0 <= i < cur.len() implies (cur[i]).order_id >= o.order_id by {
            if i < prev.len() {
                assert(cur[i] == prev[i]);
            }
        }
        if m < orders.len() {
            assert(o.order_id > orders[orders.len() - 1 - m].order_id);
        }
    }
}

/// A descending listing of the store (orders kept in increasing id order)
/// gives its orders in strictly decreasing id order.
pub proof fn lemma_descending_page_decreases(
    orders: Seq<OrderInfo>,
    user: Option<String>,
    start_after: Option<u64>,
    limit: Option<u32>,
    order_by: Option<OrderBy>,
)
    requires
        ids_increasing(orders),
        order_by != Some(OrderBy::Asc),
    ensures
        ids_decreasing(orders_page(orders, user, start_after, limit, order_by)),
{
    lemma_listed_descending(orders, user, start_after, orders.len());
    let all = listed(orders, user, start_after, false, orders.len());
    let page = orders_page(orders, user, start_after, limit, order_by);
    assert forall|i: int, j: int| 0 <= i < j < page.len() implies page[i].order_id
        > page[j].order_id by {
        assert(page[i] == all[i] && page[j] == all[j]);
    }
}

proof fn lemma_listed_ascending(
    orders: Seq<OrderInfo>,
    user: Option<String>,
    start_after: Option<u64>,
    m: nat,
)
    requires
        ids_increasing(orders),
        m <= orders.len(),
    ensures
        ids_increasing(listed(orders, user, start_after, true, m)),
        forall|i: int|
            0 <= i < listed(orders, user, start_after, true, m).len() ==> {
                let o = #[trigger] listed(orders, user, start_after, true, m)[i];
                &&& orders.contains(o)
                &&& order_listed(o, user, start_after, true)
                &&& (m < orders.len() ==> o.order_id < orders[m as int].order_id)
            },
        forall|j: int|
            0 <= j < m && order_listed(#[trigger] orders[j], user, start_after, true) ==> listed(
                orders,
                user,
                start_after,
                true,
                m,
            ).contains(orders[j]),
    decreases m,
{
    if m > 0 {
        lemma_listed_ascending(orders, user, start_after, (m - 1) as nat);
        let prev = listed(orders, user, start_after, true, (m - 1) as nat);
        let cur = listed(orders, user, start_after, true, m);
        let o = orders[m - 1];
        assert(visited(orders, true, m - 1) == o);
        assert forall|i: int| 0 <= i < cur.len() implies {
            let c = #[trigger] cur[i];
            &&& orders.contains(c)
            &&& order_listed(c, user, start_after, true)
            &&& (m < orders.len() ==> c.order_id < orders[m as int].order_id)
        } by {
            if i < prev.len() {
                assert(cur[i] == prev[i]);
            } else {
                assert(cur[i] == o);
                assert(orders[m - 1] == o);
            }
        }
        assert forall|j: int|
            0 <= j < m && order_listed(#[trigger] orders[j], user, start_after, true) implies cur.contains(
            orders[j]) by {
            if j < m - 1 {
                let k = choose|k: int| 0 <= k < prev.len() && prev[k] == orders[j];
                assert(cur[k] == prev[k]);
            } else {
                assert(cur[cur.len() - 1] == o);
            }
        }
        assert forall|a: int, b: int| 0 <= a < b < cur.len() implies cur[a].order_id
            < cur[b].order_id by {
            if b < prev.len() {
                assert(cur[a] == prev[a] && cur[b] == prev[b]);
            } else {
                assert(cur[a] == prev[a]);
            }
        }
    }
}

/// An ascending page holds exactly the smallest ids that the listing takes:
/// its ids increase, each of its orders is a stored order that the listing
/// takes, it holds as many as the limit allows or all of them, and a stored
/// order that the listing takes but the page leaves out comes after a full
/// page, its id above every id on it.
pub proof fn lemma_ascending_page_smallest(
    orders: Seq<OrderInfo>,
    user: Option<String>,
    start_after: Option<u64>,
    limit: Option<u32>,
)
    requires
        ids_increasing(orders),
    ensures
        ({
            let page = orders_page(orders, user, start_after, limit, Some(OrderBy::Asc));
            let all = listed(orders, user, start_after, true, orders.len());
            &&& ids_increasing(page)
            &&& page.len() == if all.len() < listing_limit(limit) {
                all.len()
            } else {
                listing_limit(limit)
            }
            &&& forall|i: int|
                0 <= i < page.len() ==> orders.contains(#[trigger] page[i]) && order_listed(
                    page[i],
                    user,
                    start_after,
                    true,
                )
            &&& forall|j: int|
                0 <= j < orders.len() && order_listed(#[trigger] orders[j], user, start_after, true)
                    && !page.contains(orders[j]) ==> page.len() == listing_limit(limit) && forall|
                    i: int,
                | 0 <= i < page.len() ==> page[i].order_id < orders[j].order_id
        }),
{
    lemma_listed_ascending(orders, user, start_after, orders.len());
    let page = orders_page(orders, user, start_after, limit, Some(OrderBy::Asc));
    let all = listed(orders, user, start_after, true, orders.len());
    assert forall|i: int| 0 <= i < page.len() implies page[i] == all[i] by {}
    assert forall|j: int|
        0 <= j < orders.len() && order_listed(#[trigger] orders[j], user, start_after, true)
            && !page.contains(orders[j]) implies page.len() == listing_limit(limit) && forall|
            i: int,
        | 0 <= i < page.len() ==> page[i].order_id < orders[j].order_id by {
        let p = choose|p: int| 0 <= p < all.len() && all[p] == orders[j];
        if p < page.len() {
            assert(page[p] == orders[j]);
        }
        assert forall|i: int| 0 <= i < page.len() implies page[i].order_id
            < orders[j].order_id by {
            assert(all[i].order_id < all[p].order_id);
        }
    }
}

/// When PRISM is asked for and the order's fee sells for less than the
/// minimum fee value, the fee is the PRISM that buys the minimum fee value
/// (`bought`, from the reverse simulation): an order returning less than that
/// fails, one whose return after the fee falls short of the ask is refused,
/// and otherwise the executor and the protocol share exactly `bought` and the
/// executor keeps the return beyond the fee and the ask.
pub proof fn lemma_min_fee_path(
    cfg: Config,
    order: OrderInfo,
    executor: String,
    returned: u128,
    fee_sells_for: u128,
    bought: u128,
)
    requires
        same_info(order.ask_asset.info, prism_info(cfg)),
        decimal_mul(returned as int, cfg.order_fee as int) <= u128::MAX,
        fee_sells_for < cfg.min_fee_value,
        cfg.executor_fee_portion <= DECIMAL_FRACTIONAL,
    ensures
        ({
            let plan = order_plan(cfg, order, seq![returned, fee_sells_for, bought]);
            let p = prism_info(cfg);
            &&& bought > returned ==> plan == OrderPlan::Fail(LimitOrderError::Overflow)
            &&& bought <= returned ==> plan == (OrderPlan::Settle {
                offer: order.offer_asset,
                ret: Asset { info: p, amount: (returned - bought) as u128 },
                fee: bought,
            })
            &&& bought <= returned && returned - bought < order.ask_asset.amount ==> settlement(
                cfg,
                order,
                executor,
                order.offer_asset,
                Asset { info: p, amount: (returned - bought) as u128 },
                bought,
            ) == Err::<(Seq<OrderAction>, u128, u128, u128), LimitOrderError>(
                LimitOrderError::InsufficientReturn,
            )
            &&& bought <= returned && returned - bought >= order.ask_asset.amount ==> {
                let s = settlement(
                    cfg,
                    order,
                    executor,
                    order.offer_asset,
                    Asset { info: p, amount: (returned - bought) as u128 },
                    bought,
                );
                &&& s is Ok
                &&& s->Ok_0.1 + s->Ok_0.2 == bought
                &&& s->Ok_0.3 == returned - bought - order.ask_asset.amount
            }
        }),
{
    let f = DECIMAL_FRACTIONAL as int;
    let e = decimal_mul(bought as int, cfg.executor_fee_portion as int);
    assert(bought * cfg.executor_fee_portion <= bought * f) by (nonlinear_arith)
        requires
            cfg.executor_fee_portion <= f,
            bought >= 0,
    ;
    assert(bought * f / f == bought) by (nonlinear_arith)
        requires
            f > 0,
    ;
    assert(bought * cfg.executor_fee_portion / f <= bought * f / f) by (nonlinear_arith)
        requires
            bought * cfg.executor_fee_portion <= bought * f,
            f > 0,
    ;
    assert(0 <= bought * cfg.executor_fee_portion / f) by (nonlinear_arith)
        requires
            bought >= 0,
            cfg.executor_fee_portion >= 0,
            f > 0,
    ;
    assert(0 <= e <= bought);
}

/// The id `store_new_order` gives a new order (`last_order_id + 1`, which
/// becomes the last order id) is taken by no stored order while every stored
/// id is at most the last order id; so successive orders get strictly
/// increasing ids, none overwrites a stored order, and the store keeps that
/// property.
pub proof fn lemma_new_order_id_is_fresh(last_order_id: u64, stored_ids: Set<u64>)
    requires
        forall|i: u64| stored_ids.contains(i) ==> i <= last_order_id,
        last_order_id < u64::MAX,
    ensures
        !stored_ids.contains((last_order_id + 1) as u64),
        forall|i: u64| #[trigger] stored_ids.insert((last_order_id + 1) as u64).contains(i) ==> i
            <= last_order_id + 1,
{
}

} // verus!
