//! Governance: xPRISM holders stake voting tokens, create polls with a
//! deposit, vote, and end polls against a quorum (of the token supply) and a
//! threshold (of the non-abstaining votes); passed polls run their message
//! after an effective delay.

use crate::math::{decimal_ratio, from_ratio, multiply_ratio, ratio_of, DECIMAL_FRACTIONAL};
use vstd::prelude::*;
use vstd::string::StringExecFns;
use vstd::utf8::encode_utf8;

verus! {

/// The least gas a poll's message may be given.
pub const MIN_POLL_GAS_LIMIT: u64 = 1_000_000u64;

/// The shortest title a poll may have, in bytes.
pub const MIN_TITLE_LENGTH: usize = 4usize;

/// The longest title a poll may have, in bytes.
pub const MAX_TITLE_LENGTH: usize = 64usize;

/// The shortest description a poll may have, in bytes.
pub const MIN_DESC_LENGTH: usize = 4usize;

/// The longest description a poll may have, in bytes.
pub const MAX_DESC_LENGTH: usize = 256usize;

/// The shortest link a poll may have, in bytes.
pub const MIN_LINK_LENGTH: usize = 12usize;

/// The longest link a poll may have, in bytes.
pub const MAX_LINK_LENGTH: usize = 128usize;

/// Why a governance operation is rejected.
#[derive(Clone, Debug, PartialEq, Eq)]
pub enum GovError {
    /// "quorum must be 0 to 1"
    InvalidQuorum,
    /// "threshold must be 0 to 1"
    InvalidThreshold,
    /// "gas limit can not be smaller than 1000000"
    GasLimitTooSmall,
    /// "Title too short"
    TitleTooShort,
    /// "Title too long"
    TitleTooLong,
    /// "Description too short"
    DescriptionTooShort,
    /// "Description too long"
    DescriptionTooLong,
    /// "Link too short"
    LinkTooShort,
    /// "Link too long"
    LinkTooLong,
    /// "Must deposit more than {proposal_deposit} token"
    DepositTooSmall { proposal_deposit: u128 },
    /// "Poll does not exist"
    PollNotFound,
    /// "Poll is not in progress"
    PollNotInProgress,
    /// "Voting period has not expired"
    VotingPeriodNotExpired,
    /// "Poll is not in passed status"
    PollNotPassed,
    /// "Effective delay has not expired"
    EffectiveDelayNotExpired,
    /// "The poll does not have execute_data"
    NoExecuteData,
    /// "User has already voted."
    AlreadyVoted,
    /// "User does not have enough staked tokens."
    NotEnoughStaked,
    /// "Cannot snapshot at this height"
    CannotSnapshot,
    /// "Snapshot has already occurred"
    SnapshotAlreadyTaken,
    /// "unauthorized"
    Unauthorized,
    /// "xprism token was already set"
    XprismTokenAlreadySet,
    /// "invalid cw20 hook message"
    InvalidHook,
    /// "reply id is invalid"
    InvalidReplyId,
    /// "Insufficient funds sent"
    InsufficientFunds,
    /// "no voting information found for this address"
    NoVotingInfo,
    /// "User is trying to withdraw too many tokens"
    WithdrawTooMany,
    /// "nothing to claim"
    NothingToClaim,
    /// "Nothing staked"
    NothingStaked,
    /// "can only execute one redeem_xprism operation per block"
    OneRedeemPerBlock,
    /// A checked subtraction underflowed (the contract reports an overflow error).
    Overflow,
    /// An arithmetic step overflows or divides by zero, or a missing value is
    /// unwrapped, which aborts the transaction.
    Aborted,
}

/// Governance configuration. `quorum` and `threshold` are decimals in atomic
/// units; `xprism_token` is unset until the token's instantiation replies.
#[derive(Clone, Debug, PartialEq, Eq)]
pub struct Config {
    pub prism_token: String,
    pub xprism_token: Option<String>,
    pub owner: String,
    pub quorum: u128,
    pub threshold: u128,
    pub voting_period: u64,
    pub effective_delay: u64,
    pub proposal_deposit: u128,
    pub snapshot_period: u64,
    pub redemption_time: u64,
    pub poll_gas_limit: u64,
}

/// The life cycle of a poll.
#[derive(Clone, Copy, Debug, PartialEq, Eq)]
pub enum PollStatus {
    InProgress,
    Passed,
    Rejected,
    Executed,
    Failed,
}

/// A vote.
#[derive(Clone, Copy, Debug, PartialEq, Eq)]
pub enum VoteOption {
    Yes,
    No,
    Abstain,
}

/// A message a passed poll runs: the contract and the encoded message.
#[derive(Clone, Debug, PartialEq, Eq)]
pub struct ExecuteData {
    pub contract: String,
    pub msg: Vec<u8>,
}

/// A poll as governance stores it.
#[derive(Clone, Debug, PartialEq, Eq)]
pub struct Poll {
    pub id: u64,
    pub creator: String,
    pub status: PollStatus,
    pub yes_votes: u128,
    pub no_votes: u128,
    pub abstain_votes: u128,
    pub end_time: u64,
    pub title: String,
    pub description: String,
    pub link: Option<String>,
    pub execute_data: Option<ExecuteData>,
    pub deposit_amount: u128,
    pub supply_snapshot: Option<u128>,
}

/// A voter's vote on a poll.
#[derive(Clone, Copy, Debug, PartialEq, Eq)]
pub struct VoterInfo {
    pub vote: VoteOption,
    pub balance: u128,
}

/// An outgoing message of governance.
#[derive(Clone, Debug, PartialEq, Eq)]
pub enum Action {
    /// Transfer `amount` of the cw20 `token` to `recipient`.
    Transfer { token: String, recipient: String, amount: u128 },
    /// Run a passed poll's message with at most `gas_limit` gas; a failure
    /// replies to this contract (`POLL_EXECUTE_REPLY_ID`), which then marks
    /// the poll failed.
    ExecutePollMsg { contract: String, msg: Vec<u8>, gas_limit: u64 },
    /// Instantiate the xPRISM token from `code_id` as a cw20 token named
    /// `name` with symbol `symbol`, `decimals` decimals, no initial balances
    /// and `minter` as its uncapped minter; its success replies to this
    /// contract (`INSTANTIATE_REPLY_ID`), which records the token.
    InstantiateXprism { code_id: u64, name: String, symbol: String, decimals: u8, minter: String },
    /// Mint `amount` xPRISM for `recipient`.
    MintXprism { recipient: String, amount: u128 },
    /// Burn `amount` of the xPRISM this contract holds.
    BurnXprism { amount: u128 },
}

/// The length in bytes of the UTF-8 encoding of a text, as `str::len` reports it.
pub open spec fn byte_len(s: Seq<char>) -> usize {
    encode_utf8(s).len() as usize
}

/// Checks a quorum: at most one.
pub fn validate_quorum(quorum: u128) -> (r: Result<(), GovError>)
    ensures
        r is Ok <==> quorum <= DECIMAL_FRACTIONAL,
        r is Err ==> r->Err_0 == GovError::InvalidQuorum,
{
    if quorum > DECIMAL_FRACTIONAL {
        Err(GovError::InvalidQuorum)
    } else {
        Ok(())
    }
}

/// Checks a threshold: at most one.
pub fn validate_threshold(threshold: u128) -> (r: Result<(), GovError>)
    ensures
        r is Ok <==> threshold <= DECIMAL_FRACTIONAL,
        r is Err ==> r->Err_0 == GovError::InvalidThreshold,
{
    if threshold > DECIMAL_FRACTIONAL {
        Err(GovError::InvalidThreshold)
    } else {
        Ok(())
    }
}

/// Checks a poll gas limit: at least `MIN_POLL_GAS_LIMIT`.
pub fn validate_poll_gas_limit(poll_gas_limit: u64) -> (r: Result<(), GovError>)
    ensures
        r is Ok <==> poll_gas_limit >= MIN_POLL_GAS_LIMIT,
        r is Err ==> r->Err_0 == GovError::GasLimitTooSmall,
{
    if poll_gas_limit < MIN_POLL_GAS_LIMIT {
        Err(GovError::GasLimitTooSmall)
    } else {
        Ok(())
    }
}

/// Checks a title's length in bytes: from `MIN_TITLE_LENGTH` to `MAX_TITLE_LENGTH`.
pub fn validate_title(title: &str) -> (r: Result<(), GovError>)
    ensures
        byte_len(title@) < MIN_TITLE_LENGTH ==> r == Err::<(), GovError>(
            GovError::TitleTooShort,
        ),
        byte_len(title@) > MAX_TITLE_LENGTH ==> r == Err::<(), GovError>(
            GovError::TitleTooLong,
        ),
        MIN_TITLE_LENGTH <= byte_len(title@) <= MAX_TITLE_LENGTH ==> r is Ok,
{
    if title.len() < MIN_TITLE_LENGTH {
        Err(GovError::TitleTooShort)
    } else if title.len() > MAX_TITLE_LENGTH {
        Err(GovError::TitleTooLong)
    } else {
        Ok(())
    }
}

/// Checks a description's length in bytes: from `MIN_DESC_LENGTH` to `MAX_DESC_LENGTH`.
pub fn validate_description(description: &str) -> (r: Result<(), GovError>)
    ensures
        byte_len(description@) < MIN_DESC_LENGTH ==> r == Err::<(), GovError>(
            GovError::DescriptionTooShort,
        ),
        byte_len(description@) > MAX_DESC_LENGTH ==> r == Err::<(), GovError>(
            GovError::DescriptionTooLong,
        ),
        MIN_DESC_LENGTH <= byte_len(description@) <= MAX_DESC_LENGTH ==> r is Ok,
{
    if description.len() < MIN_DESC_LENGTH {
        Err(GovError::DescriptionTooShort)
    } else if description.len() > MAX_DESC_LENGTH {
        Err(GovError::DescriptionTooLong)
    } else {
        Ok(())
    }
}

/// Checks an optional link's length in bytes: from `MIN_LINK_LENGTH` to
/// `MAX_LINK_LENGTH`; no link is fine.
pub fn validate_link(link: &Option<String>) -> (r: Result<(), GovError>)
    ensures
        link is None ==> r is Ok,
        link matches Some(l) ==> {
            &&& (byte_len(l@) < MIN_LINK_LENGTH ==> r == Err::<(), GovError>(
                GovError::LinkTooShort,
            ))
            &&& (byte_len(l@) > MAX_LINK_LENGTH ==> r == Err::<(), GovError>(
                GovError::LinkTooLong,
            ))
            &&& (MIN_LINK_LENGTH <= byte_len(l@) <= MAX_LINK_LENGTH ==> r is Ok)
        },
{
    match link {
        None => Ok(()),
        Some(l) => {
            let s = l.as_str();
            if s.len() < MIN_LINK_LENGTH {
                Err(GovError::LinkTooShort)
            } else if s.len() > MAX_LINK_LENGTH {
                Err(GovError::LinkTooLong)
            } else {
                Ok(())
            }
        },
    }
}


/// A copy of a byte string.
pub fn copy_bytes(v: &Vec<u8>) -> (r: Vec<u8>)
    ensures
        r@ == v@,
{
    let mut r: Vec<u8> = Vec::new();
    let mut i: usize = 0;
    while i < v.len()
        invariant
            0 <= i <= v@.len(),
            r@ == v@.take(i as int),
        decreases v@.len() - i,
    {
        r.push(v[i]);
        i = i + 1;
        assert(r@ =~= v@.take(i as int));
    }
    assert(v@.take(i as int) =~= v@);
    r
}

/// The name of the xPRISM token.
pub open spec fn xprism_name() -> Seq<char> {
    "Prism Governance Token"@
}

/// The symbol of the xPRISM token.
pub open spec fn xprism_symbol() -> Seq<char> {
    "xPRISM"@
}

/// Whether `a` instantiates the xPRISM token from `code_id` with `minter`
/// (this contract) as its minter.
pub open spec fn instantiates_xprism(a: Action, code_id: u64, minter: String) -> bool {
    match a {
        Action::InstantiateXprism { code_id: c, name, symbol, decimals, minter: m } => c == code_id
            && name@ == xprism_name() && symbol@ == xprism_symbol() && decimals == 6 && m == minter,
        _ => false,
    }
}

/// Checks an instantiation and returns the configuration to store, the
/// sender becoming the owner, and the instantiation of the xPRISM token from
/// `token_code_id` with this contract (`contract`) as its minter; the token's
/// address is recorded when it replies.
pub fn instantiate(
    sender: String,
    contract: String,
    token_code_id: u64,
    prism_token: String,
    quorum: u128,
    threshold: u128,
    voting_period: u64,
    effective_delay: u64,
    proposal_deposit: u128,
    snapshot_period: u64,
    redemption_time: u64,
    poll_gas_limit: u64,
) -> (r: Result<(Config, Action), GovError>)
    ensures
        quorum > DECIMAL_FRACTIONAL ==> r == Err::<(Config, Action), GovError>(GovError::InvalidQuorum),
        quorum <= DECIMAL_FRACTIONAL && threshold > DECIMAL_FRACTIONAL ==> r == Err::<
            (Config, Action),
            GovError,
        >(GovError::InvalidThreshold),
        quorum <= DECIMAL_FRACTIONAL && threshold <= DECIMAL_FRACTIONAL && poll_gas_limit
            < MIN_POLL_GAS_LIMIT ==> r == Err::<(Config, Action), GovError>(GovError::GasLimitTooSmall),
        quorum <= DECIMAL_FRACTIONAL && threshold <= DECIMAL_FRACTIONAL && poll_gas_limit
            >= MIN_POLL_GAS_LIMIT ==> r is Ok && instantiates_xprism(r->Ok_0.1, token_code_id, contract)
            && r->Ok_0.0 == (Config {
                prism_token,
                xprism_token: None,
                owner: sender,
                quorum,
                threshold,
                voting_period,
                effective_delay,
                proposal_deposit,
                snapshot_period,
                redemption_time,
                poll_gas_limit,
            }),
{
    validate_quorum(quorum)?;
    validate_threshold(threshold)?;
    validate_poll_gas_limit(poll_gas_limit)?;
    let token = Action::InstantiateXprism {
        code_id: token_code_id,
        name: String::from_str("Prism Governance Token"),
        symbol: String::from_str("xPRISM"),
        decimals: 6,
        minter: contract,
    };
    Ok(
        (Config {
            prism_token,
            xprism_token: None,
            owner: sender,
            quorum,
            threshold,
            voting_period,
            effective_delay,
            proposal_deposit,
            snapshot_period,
            redemption_time,
            poll_gas_limit,
        }, token),
    )
}

/// The id of the reply to a poll's message, which fails the poll.
pub const POLL_EXECUTE_REPLY_ID: u64 = 1u64;

/// The id of the reply to the xPRISM token's instantiation.
pub const INSTANTIATE_REPLY_ID: u64 = 2u64;

/// What a reply answers.
#[derive(Clone, Copy, Debug, PartialEq, Eq)]
pub enum ReplyKind {
    /// A poll's message failed: the poll being executed is marked failed.
    PollExecuteFailed,
    /// The xPRISM token was instantiated: its address is recorded.
    XprismInstantiated,
}

/// Tells the replies governance expects apart by id.
pub fn reply(id: u64) -> (r: Result<ReplyKind, GovError>)
    ensures
        r == if id == POLL_EXECUTE_REPLY_ID {
            Ok::<ReplyKind, GovError>(ReplyKind::PollExecuteFailed)
        } else if id == INSTANTIATE_REPLY_ID {
            Ok::<ReplyKind, GovError>(ReplyKind::XprismInstantiated)
        } else {
            Err::<ReplyKind, GovError>(GovError::InvalidReplyId)
        },
{
    if id == POLL_EXECUTE_REPLY_ID {
        Ok(ReplyKind::PollExecuteFailed)
    } else if id == INSTANTIATE_REPLY_ID {
        Ok(ReplyKind::XprismInstantiated)
    } else {
        Err(GovError::InvalidReplyId)
    }
}

/// Records the xPRISM token's address once its instantiation replies; refused
/// when it is already set.
pub fn set_xprism_token(cfg: Config, xprism_token: String) -> (r: Result<Config, GovError>)
    ensures
        cfg.xprism_token is Some ==> r == Err::<Config, GovError>(GovError::XprismTokenAlreadySet),
        cfg.xprism_token is None ==> r == Ok::<Config, GovError>(
            Config { xprism_token: Some(xprism_token), ..cfg },
        ),
{
    if cfg.xprism_token.is_some() {
        return Err(GovError::XprismTokenAlreadySet);
    }
    Ok(Config { xprism_token: Some(xprism_token), ..cfg })
}

/// The owner updates the configuration: each given value replaces the stored
/// one, after the quorum, threshold and gas limit are checked; refused for
/// anyone else.
pub fn update_config(
    cfg: Config,
    sender: &String,
    owner: Option<String>,
    quorum: Option<u128>,
    threshold: Option<u128>,
    voting_period: Option<u64>,
    effective_delay: Option<u64>,
    proposal_deposit: Option<u128>,
    snapshot_period: Option<u64>,
    redemption_time: Option<u64>,
    poll_gas_limit: Option<u64>,
) -> (r: Result<Config, GovError>)
    ensures
        sender@ != cfg.owner@ ==> r == Err::<Config, GovError>(GovError::Unauthorized),
        sender@ == cfg.owner@ && (quorum is Some && quorum->Some_0 > DECIMAL_FRACTIONAL) ==> r == Err::<
            Config,
            GovError,
        >(GovError::InvalidQuorum),
        sender@ == cfg.owner@ && !(quorum is Some && quorum->Some_0 > DECIMAL_FRACTIONAL) && (threshold is Some && threshold->Some_0 > DECIMAL_FRACTIONAL) ==> r == Err::<Config, GovError>(
            GovError::InvalidThreshold,
        ),
        sender@ == cfg.owner@ && !(quorum is Some && quorum->Some_0 > DECIMAL_FRACTIONAL) && !(threshold is Some && threshold->Some_0 > DECIMAL_FRACTIONAL) && (poll_gas_limit is Some && poll_gas_limit->Some_0 < MIN_POLL_GAS_LIMIT) ==> r == Err::<Config, GovError>(GovError::GasLimitTooSmall),
        r matches Ok(c) ==> c == (Config {
            prism_token: cfg.prism_token,
            xprism_token: cfg.xprism_token,
            owner: match owner {
                Some(o) => o,
                None => cfg.owner,
            },
            quorum: match quorum {
                Some(q) => q,
                None => cfg.quorum,
            },
            threshold: match threshold {
                Some(t) => t,
                None => cfg.threshold,
            },
            voting_period: match voting_period {
                Some(v) => v,
                None => cfg.voting_period,
            },
            effective_delay: match effective_delay {
                Some(v) => v,
                None => cfg.effective_delay,
            },
            proposal_deposit: match proposal_deposit {
                Some(v) => v,
                None => cfg.proposal_deposit,
            },
            snapshot_period: match snapshot_period {
                Some(v) => v,
                None => cfg.snapshot_period,
            },
            redemption_time: match redemption_time {
                Some(v) => v,
                None => cfg.redemption_time,
            },
            poll_gas_limit: match poll_gas_limit {
                Some(v) => v,
                None => cfg.poll_gas_limit,
            },
        }),
        sender@ == cfg.owner@ && !(quorum is Some && quorum->Some_0 > DECIMAL_FRACTIONAL) && !(threshold is Some && threshold->Some_0 > DECIMAL_FRACTIONAL) && !(poll_gas_limit is Some && poll_gas_limit->Some_0 < MIN_POLL_GAS_LIMIT) ==> r is Ok,
{
    if *sender != cfg.owner {
        return Err(GovError::Unauthorized);
    }
    let mut c = cfg;
    if let Some(o) = owner {
        c.owner = o;
    }
    if let Some(q) = quorum {
        validate_quorum(q)?;
        c.quorum = q;
    }
    if let Some(t) = threshold {
        validate_threshold(t)?;
        c.threshold = t;
    }
    if let Some(v) = voting_period {
        c.voting_period = v;
    }
    if let Some(v) = effective_delay {
        c.effective_delay = v;
    }
    if let Some(v) = proposal_deposit {
        c.proposal_deposit = v;
    }
    if let Some(v) = snapshot_period {
        c.snapshot_period = v;
    }
    if let Some(v) = redemption_time {
        c.redemption_time = v;
    }
    if let Some(g) = poll_gas_limit {
        validate_poll_gas_limit(g)?;
        c.poll_gas_limit = g;
    }
    Ok(c)
}

/// The hook a cw20 `Receive` carries to governance.
#[derive(Clone, Copy, Debug, PartialEq, Eq)]
pub enum HookKind {
    StakeVotingTokens,
    CreatePoll,
    RedeemXprism,
    MintXprism,
}

/// Decides whether a cw20 `Receive` from the token contract `token` may run
/// `hook` (`None`: the message did not decode): xPRISM may stake, create polls
/// and redeem; PRISM may only mint xPRISM; other tokens are refused.
pub fn check_cw20_hook(cfg: &Config, token: &String, hook: Option<HookKind>) -> (r: Result<
    HookKind,
    GovError,
>)
    ensures
        cfg.xprism_token is None ==> r == Err::<HookKind, GovError>(GovError::Aborted),
        cfg.xprism_token matches Some(x) && token@ == x@ ==> r == match hook {
            Some(HookKind::StakeVotingTokens) => Ok::<HookKind, GovError>(HookKind::StakeVotingTokens),
            Some(HookKind::CreatePoll) => Ok::<HookKind, GovError>(HookKind::CreatePoll),
            Some(HookKind::RedeemXprism) => Ok::<HookKind, GovError>(HookKind::RedeemXprism),
            _ => Err::<HookKind, GovError>(GovError::InvalidHook),
        },
        cfg.xprism_token matches Some(x) && token@ != x@ && token@ == cfg.prism_token@ ==> r
            == match hook {
            Some(HookKind::MintXprism) => Ok::<HookKind, GovError>(HookKind::MintXprism),
            _ => Err::<HookKind, GovError>(GovError::InvalidHook),
        },
        cfg.xprism_token matches Some(x) && token@ != x@ && token@ != cfg.prism_token@ ==> r
            == Err::<HookKind, GovError>(GovError::Unauthorized),
{
    let x = match &cfg.xprism_token {
        Some(x) => x,
        None => return Err(GovError::Aborted),
    };
    if *token == *x {
        match hook {
            Some(HookKind::StakeVotingTokens) => Ok(HookKind::StakeVotingTokens),
            Some(HookKind::CreatePoll) => Ok(HookKind::CreatePoll),
            Some(HookKind::RedeemXprism) => Ok(HookKind::RedeemXprism),
            _ => Err(GovError::InvalidHook),
        }
    } else if *token == cfg.prism_token {
        match hook {
            Some(HookKind::MintXprism) => Ok(HookKind::MintXprism),
            _ => Err(GovError::InvalidHook),
        }
    } else {
        Err(GovError::Unauthorized)
    }
}

/// Creates poll `poll_id` (the next free id) for `proposer` at `now`, after
/// checking the title, description and link and that the deposit covers the
/// proposal deposit. The poll is in progress with no votes and ends a voting
/// period after `now`.
pub fn create_poll(
    cfg: &Config,
    poll_id: u64,
    proposer: String,
    deposit_amount: u128,
    title: String,
    description: String,
    link: Option<String>,
    execute_data: Option<ExecuteData>,
    now: u64,
) -> (r: Result<Poll, GovError>)
    ensures
        byte_len(title@) < MIN_TITLE_LENGTH ==> r == Err::<Poll, GovError>(GovError::TitleTooShort),
        byte_len(title@) > MAX_TITLE_LENGTH ==> r == Err::<Poll, GovError>(GovError::TitleTooLong),
        MIN_TITLE_LENGTH <= byte_len(title@) <= MAX_TITLE_LENGTH ==> {
            &&& byte_len(description@) < MIN_DESC_LENGTH ==> r == Err::<Poll, GovError>(
                GovError::DescriptionTooShort,
            )
            &&& byte_len(description@) > MAX_DESC_LENGTH ==> r == Err::<Poll, GovError>(
                GovError::DescriptionTooLong,
            )
            &&& MIN_DESC_LENGTH <= byte_len(description@) <= MAX_DESC_LENGTH ==> {
                &&& (link is Some && byte_len(link->Some_0@) < MIN_LINK_LENGTH) ==> r == Err::<
                    Poll,
                    GovError,
                >(GovError::LinkTooShort)
                &&& (link is Some && byte_len(link->Some_0@) > MAX_LINK_LENGTH) ==> r == Err::<
                    Poll,
                    GovError,
                >(GovError::LinkTooLong)
                &&& !(link is Some && (byte_len(link->Some_0@) < MIN_LINK_LENGTH || byte_len(link->Some_0@)
                    > MAX_LINK_LENGTH)) ==> {
                    &&& deposit_amount < cfg.proposal_deposit ==> r == Err::<Poll, GovError>(
                        GovError::DepositTooSmall { proposal_deposit: cfg.proposal_deposit },
                    )
                    &&& deposit_amount >= cfg.proposal_deposit && now + cfg.voting_period
                        > u64::MAX ==> r == Err::<Poll, GovError>(GovError::Aborted)
                    &&& deposit_amount >= cfg.proposal_deposit && now + cfg.voting_period
                        <= u64::MAX ==> r == Ok::<Poll, GovError>(
                        Poll {
                            id: poll_id,
                            creator: proposer,
                            status: PollStatus::InProgress,
                            yes_votes: 0,
                            no_votes: 0,
                            abstain_votes: 0,
                            end_time: (now + cfg.voting_period) as u64,
                            title,
                            description,
                            link,
                            execute_data,
                            deposit_amount,
                            supply_snapshot: None,
                        },
                    )
                }
            }
        },
{
    validate_title(title.as_str())?;
    validate_description(description.as_str())?;
    validate_link(&link)?;
    if deposit_amount < cfg.proposal_deposit {
        return Err(GovError::DepositTooSmall { proposal_deposit: cfg.proposal_deposit });
    }
    let end_time = match now.checked_add(cfg.voting_period) {
        Some(t) => t,
        None => return Err(GovError::Aborted),
    };
    Ok(
        Poll {
            id: poll_id,
            creator: proposer,
            status: PollStatus::InProgress,
            yes_votes: 0,
            no_votes: 0,
            abstain_votes: 0,
            end_time,
            title,
            description,
            link,
            execute_data,
            deposit_amount,
            supply_snapshot: None,
        },
    )
}

/// Why an ended poll passed or not.
#[derive(Clone, Copy, Debug, PartialEq, Eq)]
pub enum PollOutcome {
    /// "Quorum not reached"
    QuorumNotReached,
    /// "Threshold not reached"
    ThresholdNotReached,
    /// The poll passed.
    Passed,
}

/// Whether a poll with these tallies reaches the quorum of `total_supply`:
/// something was voted and the share of the supply that voted (a floored
/// decimal, zero for an empty supply) is at least `quorum`.
pub open spec fn reaches_quorum(tallied: int, total_supply: int, quorum: int) -> bool {
    let share = if total_supply == 0 {
        0
    } else {
        decimal_ratio(tallied, total_supply)
    };
    tallied != 0 && share >= quorum
}

/// Whether the yes votes beat the threshold: some yes votes, and their share
/// of yes and no votes (a floored decimal) is above `threshold`.
pub open spec fn beats_threshold(yes: int, no: int, threshold: int) -> bool {
    yes != 0 && decimal_ratio(yes, yes + no) > threshold
}

proof fn lemma_ratio_at_most_one(part: int, whole: int)
    requires
        0 <= part <= whole,
        whole > 0,
    ensures
        0 <= decimal_ratio(part, whole) <= DECIMAL_FRACTIONAL,
{
    let f = DECIMAL_FRACTIONAL as int;
    assert(part * f <= whole * f) by (nonlinear_arith)
        requires
            0 <= part <= whole,
            f > 0,
    ;
    assert(whole * f / whole == f) by (nonlinear_arith)
        requires
            whole > 0,
    ;
    assert((part * f) / whole <= (whole * f) / whole) by (nonlinear_arith)
        requires
            part * f <= whole * f,
            whole > 0,
    ;
    assert(0 <= (part * f) / whole) by (nonlinear_arith)
        requires
            part * f >= 0,
            whole > 0,
    ;
}

/// Ends a poll whose voting period is over. The supply that measures the
/// quorum is the poll's snapshot, or `supply` (the xPRISM supply now) where it
/// has none, and is recorded. Without quorum the poll is rejected and its
/// deposit burnt; with quorum the deposit is refunded to the creator and the
/// poll passes if the yes votes beat the threshold, otherwise it is rejected.
pub fn end_poll(cfg: &Config, poll: Poll, now: u64, supply: u128) -> (r: Result<
    (Poll, PollOutcome, Vec<Action>),
    GovError,
>)
    ensures
        poll.status != PollStatus::InProgress ==> r == Err::<(Poll, PollOutcome, Vec<Action>), GovError>(
            GovError::PollNotInProgress,
        ),
        poll.status == PollStatus::InProgress && poll.end_time > now ==> r == Err::<
            (Poll, PollOutcome, Vec<Action>),
            GovError,
        >(GovError::VotingPeriodNotExpired),
        poll.status == PollStatus::InProgress && poll.end_time <= now && r is Ok ==> {
            let tallied = poll.yes_votes + poll.no_votes + poll.abstain_votes;
            let total = match poll.supply_snapshot {
                Some(v) => v,
                None => supply,
            };
            let quorate = reaches_quorum(tallied, total as int, cfg.quorum as int);
            let passed = quorate && beats_threshold(
                poll.yes_votes as int,
                poll.no_votes as int,
                cfg.threshold as int,
            );
            let (p, outcome, actions) = r->Ok_0;
            &&& p == Poll {
                status: if passed {
                    PollStatus::Passed
                } else {
                    PollStatus::Rejected
                },
                supply_snapshot: Some(total),
                ..poll
            }
            &&& outcome == if !quorate {
                PollOutcome::QuorumNotReached
            } else if passed {
                PollOutcome::Passed
            } else {
                PollOutcome::ThresholdNotReached
            }
            &&& actions@ == if poll.deposit_amount == 0 {
                Seq::<Action>::empty()
            } else if quorate {
                seq![
                    Action::Transfer {
                        token: cfg.xprism_token->Some_0,
                        recipient: poll.creator,
                        amount: poll.deposit_amount,
                    },
                ]
            } else {
                seq![Action::BurnXprism { amount: poll.deposit_amount }]
            }
        },
        poll.status == PollStatus::InProgress && poll.end_time <= now && r is Err ==> r->Err_0
            == GovError::Aborted,
        poll.status == PollStatus::InProgress && poll.end_time <= now ==> (r is Err <==> (
        poll.yes_votes + poll.no_votes + poll.abstain_votes > u128::MAX || (poll.deposit_amount
            != 0 && cfg.xprism_token is None) || ((match poll.supply_snapshot {
            Some(v) => v,
            None => supply,
        }) != 0 && decimal_ratio(
            poll.yes_votes + poll.no_votes + poll.abstain_votes,
            (match poll.supply_snapshot {
                Some(v) => v,
                None => supply,
            }) as int,
        ) > u128::MAX))),
{
    match poll.status {
        PollStatus::InProgress => {},
        _ => return Err(GovError::PollNotInProgress),
    }
    if poll.end_time > now {
        return Err(GovError::VotingPeriodNotExpired);
    }
    let yes = poll.yes_votes;
    let no = poll.no_votes;
    let tallied = match yes.checked_add(no) {
        Some(v) => match v.checked_add(poll.abstain_votes) {
            Some(t) => t,
            None => return Err(GovError::Aborted),
        },
        None => return Err(GovError::Aborted),
    };
    let total = match poll.supply_snapshot {
        Some(v) => v,
        None => supply,
    };
    let share = if total == 0 {
        0
    } else {
        match from_ratio(tallied, total) {
            Some(q) => q,
            None => return Err(GovError::Aborted),
        }
    };
    let mut actions: Vec<Action> = Vec::new();
    let quorate = tallied != 0 && share >= cfg.quorum;
    let mut passed = false;
    let outcome = if !quorate {
        if poll.deposit_amount != 0 {
            if cfg.xprism_token.is_none() {
                return Err(GovError::Aborted);
            }
            actions.push(Action::BurnXprism { amount: poll.deposit_amount });
        }
        PollOutcome::QuorumNotReached
    } else {
        let yes_share = if yes != 0 {
            proof {
                lemma_ratio_at_most_one(yes as int, (yes + no) as int);
            }
            match from_ratio(yes, yes + no) {
                Some(v) => v,
                None => return Err(GovError::Aborted),
            }
        } else {
            0
        };
        passed = yes != 0 && yes_share > cfg.threshold;
        if poll.deposit_amount != 0 {
            let token = match &cfg.xprism_token {
                Some(x) => x.clone(),
                None => return Err(GovError::Aborted),
            };
            actions.push(
                Action::Transfer {
                    token,
                    recipient: poll.creator.clone(),
                    amount: poll.deposit_amount,
                },
            );
        }
        if passed {
            PollOutcome::Passed
        } else {
            PollOutcome::ThresholdNotReached
        }
    };
    let status = if passed {
        PollStatus::Passed
    } else {
        PollStatus::Rejected
    };
    Ok((Poll { status, supply_snapshot: Some(total), ..poll }, outcome, actions))
}


/// Whether `a` runs the message `d` with at most `gas_limit` gas.
pub open spec fn runs_message(a: Action, d: ExecuteData, gas_limit: u64) -> bool {
    match a {
        Action::ExecutePollMsg { contract, msg, gas_limit: g } => contract == d.contract && msg@
            == d.msg@ && g == gas_limit,
        _ => false,
    }
}

/// Executes a passed poll once its effective delay is over: the poll is marked
/// executed and its message is run with the configured poll gas limit (a failure of the message later marks the
/// poll failed). A poll without a message is refused.
pub fn execute_poll(cfg: &Config, poll: Poll, now: u64) -> (r: Result<(Poll, Action), GovError>)
    ensures
        poll.status != PollStatus::Passed ==> r == Err::<(Poll, Action), GovError>(
            GovError::PollNotPassed,
        ),
        poll.status == PollStatus::Passed && poll.end_time + cfg.effective_delay > u64::MAX ==> r
            == Err::<(Poll, Action), GovError>(GovError::Aborted),
        poll.status == PollStatus::Passed && poll.end_time + cfg.effective_delay <= u64::MAX
            && poll.end_time + cfg.effective_delay > now ==> r == Err::<(Poll, Action), GovError>(
            GovError::EffectiveDelayNotExpired,
        ),
        poll.status == PollStatus::Passed && poll.end_time + cfg.effective_delay <= now ==> match poll.execute_data {
            None => r == Err::<(Poll, Action), GovError>(GovError::NoExecuteData),
            Some(d) => r is Ok && r->Ok_0.0 == (Poll { status: PollStatus::Executed, ..poll })
                && runs_message(r->Ok_0.1, d, cfg.poll_gas_limit),
        },
{
    match poll.status {
        PollStatus::Passed => {},
        _ => return Err(GovError::PollNotPassed),
    }
    let due = match poll.end_time.checked_add(cfg.effective_delay) {
        Some(t) => t,
        None => return Err(GovError::Aborted),
    };
    if due > now {
        return Err(GovError::EffectiveDelayNotExpired);
    }
    let action = match &poll.execute_data {
        None => return Err(GovError::NoExecuteData),
        Some(d) => Action::ExecutePollMsg {
            contract: d.contract.clone(),
            msg: copy_bytes(&d.msg),
            gas_limit: cfg.poll_gas_limit,
        },
    };
    Ok((Poll { status: PollStatus::Executed, ..poll }, action))
}

/// Marks an executed poll whose message failed as failed.
pub fn failed_poll(poll: Poll) -> (r: Poll)
    ensures
        r == (Poll { status: PollStatus::Failed, ..poll }),
{
    Poll { status: PollStatus::Failed, ..poll }
}

/// A voter's stake in governance: the deposited voting tokens and the votes
/// that lock them, `(poll_id, vote)` in the order they were cast.
#[derive(Clone, Debug, PartialEq, Eq)]
pub struct TokenManager {
    pub deposit: u128,
    pub locked_balance: Vec<(u64, VoterInfo)>,
}

/// The deposit of a stored token manager, 0 where there is none.
pub open spec fn deposit_of(tm: Option<TokenManager>) -> u128 {
    match tm {
        Some(t) => t.deposit,
        None => 0,
    }
}

/// The votes of a stored token manager, none where there is no manager.
pub open spec fn locks_of(tm: Option<TokenManager>) -> Seq<(u64, VoterInfo)> {
    match tm {
        Some(t) => t.locked_balance@,
        None => Seq::empty(),
    }
}

/// The poll after `amount` is counted for `vote`.
pub open spec fn tally(poll: Poll, vote: VoteOption, amount: u128) -> Poll {
    match vote {
        VoteOption::Yes => Poll { yes_votes: (poll.yes_votes + amount) as u128, ..poll },
        VoteOption::No => Poll { no_votes: (poll.no_votes + amount) as u128, ..poll },
        VoteOption::Abstain => Poll { abstain_votes: (poll.abstain_votes + amount) as u128, ..poll },
    }
}

/// The tally of `vote` before the vote.
pub open spec fn votes_for(poll: Poll, vote: VoteOption) -> u128 {
    match vote {
        VoteOption::Yes => poll.yes_votes,
        VoteOption::No => poll.no_votes,
        VoteOption::Abstain => poll.abstain_votes,
    }
}

/// A voter casts `amount` of their staked tokens as `vote` on a poll in its
/// voting period (`poll` is `None` where the poll does not exist;
/// `already_voted` says whether the voter has a vote on it). The vote is
/// tallied and locks the voter's tokens; a poll within its snapshot period
/// without a snapshot records `supply` (the xPRISM supply now). Returns the
/// poll, the voter's token manager and the vote.
pub fn cast_vote(
    cfg: &Config,
    poll: Option<Poll>,
    already_voted: bool,
    token_manager: Option<TokenManager>,
    vote: VoteOption,
    amount: u128,
    now: u64,
    supply: u128,
) -> (r: Result<(Poll, TokenManager, VoterInfo), GovError>)
    ensures
        poll is None ==> r == Err::<(Poll, TokenManager, VoterInfo), GovError>(
            GovError::PollNotFound,
        ),
        poll matches Some(p) ==> {
            if p.status != PollStatus::InProgress || now > p.end_time {
                r == Err::<(Poll, TokenManager, VoterInfo), GovError>(GovError::PollNotInProgress)
            } else if already_voted {
                r == Err::<(Poll, TokenManager, VoterInfo), GovError>(GovError::AlreadyVoted)
            } else if deposit_of(token_manager) < amount {
                r == Err::<(Poll, TokenManager, VoterInfo), GovError>(GovError::NotEnoughStaked)
            } else if votes_for(p, vote) + amount > u128::MAX {
                r == Err::<(Poll, TokenManager, VoterInfo), GovError>(GovError::Aborted)
            } else {
                let info = VoterInfo { vote, balance: amount };
                let tallied = tally(p, vote, amount);
                r matches Ok((np, ntm, ninfo)) && ninfo == info && ntm.deposit == deposit_of(token_manager)
                    && ntm.locked_balance@ == locks_of(token_manager).push((p.id, info)) && np == if p.end_time
                    - now < cfg.snapshot_period && p.supply_snapshot is None {
                    Poll { supply_snapshot: Some(supply), ..tallied }
                } else {
                    tallied
                }
            }
        },
{
    let p = match poll {
        Some(p) => p,
        None => return Err(GovError::PollNotFound),
    };
    let in_progress = match p.status {
        PollStatus::InProgress => true,
        _ => false,
    };
    if !in_progress || now > p.end_time {
        return Err(GovError::PollNotInProgress);
    }
    if already_voted {
        return Err(GovError::AlreadyVoted);
    }
    let mut tm = match token_manager {
        Some(t) => t,
        None => TokenManager { deposit: 0, locked_balance: Vec::new() },
    };
    if tm.deposit < amount {
        return Err(GovError::NotEnoughStaked);
    }
    let mut np = p;
    match vote {
        VoteOption::Yes => {
            np.yes_votes = match np.yes_votes.checked_add(amount) {
                Some(v) => v,
                None => return Err(GovError::Aborted),
            };
        },
        VoteOption::No => {
            np.no_votes = match np.no_votes.checked_add(amount) {
                Some(v) => v,
                None => return Err(GovError::Aborted),
            };
        },
        VoteOption::Abstain => {
            np.abstain_votes = match np.abstain_votes.checked_add(amount) {
                Some(v) => v,
                None => return Err(GovError::Aborted),
            };
        },
    }
    let info = VoterInfo { vote, balance: amount };
    tm.locked_balance.push((np.id, info));
    let time_to_end = np.end_time - now;
    if time_to_end < cfg.snapshot_period && np.supply_snapshot.is_none() {
        np.supply_snapshot = Some(supply);
    }
    Ok((np, tm, info))
}

/// Records the xPRISM supply (`supply`, as now) on a poll within its snapshot
/// period that has none yet. Returns the poll and the supply recorded.
pub fn snapshot_poll(cfg: &Config, poll: Poll, now: u64, supply: u128) -> (r: Result<
    (Poll, u128),
    GovError,
>)
    ensures
        poll.status != PollStatus::InProgress ==> r == Err::<(Poll, u128), GovError>(
            GovError::PollNotInProgress,
        ),
        poll.status == PollStatus::InProgress && now > poll.end_time ==> r == Err::<
            (Poll, u128),
            GovError,
        >(GovError::Aborted),
        poll.status == PollStatus::InProgress && now <= poll.end_time ==> r == if poll.end_time - now
            > cfg.snapshot_period {
            Err::<(Poll, u128), GovError>(GovError::CannotSnapshot)
        } else if poll.supply_snapshot is Some {
            Err::<(Poll, u128), GovError>(GovError::SnapshotAlreadyTaken)
        } else {
            Ok::<(Poll, u128), GovError>((Poll { supply_snapshot: Some(supply), ..poll }, supply))
        },
{
    match poll.status {
        PollStatus::InProgress => {},
        _ => return Err(GovError::PollNotInProgress),
    }
    if now > poll.end_time {
        return Err(GovError::Aborted);
    }
    let time_to_end = poll.end_time - now;
    if time_to_end > cfg.snapshot_period {
        return Err(GovError::CannotSnapshot);
    }
    if poll.supply_snapshot.is_some() {
        return Err(GovError::SnapshotAlreadyTaken);
    }
    Ok((Poll { supply_snapshot: Some(supply), ..poll }, supply))
}


/// Stakes `amount` voting tokens (received as a cw20 hook) for a voter whose
/// stored token manager is `token_manager`. Returns the manager to store.
pub fn stake_voting_tokens(token_manager: Option<TokenManager>, amount: u128) -> (r: Result<
    TokenManager,
    GovError,
>)
    ensures
        amount == 0 ==> r == Err::<TokenManager, GovError>(GovError::InsufficientFunds),
        amount != 0 && deposit_of(token_manager) + amount > u128::MAX ==> r == Err::<
            TokenManager,
            GovError,
        >(GovError::Aborted),
        amount != 0 && deposit_of(token_manager) + amount <= u128::MAX ==> (r matches Ok(tm) && tm.deposit
            == deposit_of(token_manager) + amount && tm.locked_balance@ == locks_of(token_manager)),
{
    if amount == 0 {
        return Err(GovError::InsufficientFunds);
    }
    let mut tm = match token_manager {
        Some(t) => t,
        None => TokenManager { deposit: 0, locked_balance: Vec::new() },
    };
    tm.deposit = match tm.deposit.checked_add(amount) {
        Some(v) => v,
        None => return Err(GovError::Aborted),
    };
    Ok(tm)
}

/// The votes whose poll is still in progress; `statuses[i]` is the status of
/// the poll of `locks[i]`.
pub open spec fn live_locks(locks: Seq<(u64, VoterInfo)>, statuses: Seq<PollStatus>) -> Seq<
    (u64, VoterInfo),
>
    decreases locks.len(),
{
    if locks.len() == 0 {
        Seq::empty()
    } else {
        let rest = live_locks(locks.drop_last(), statuses.take(locks.len() - 1));
        if statuses[locks.len() - 1] == PollStatus::InProgress {
            rest.push(locks.last())
        } else {
            rest
        }
    }
}

/// The polls of the votes whose poll is no longer in progress, in order.
pub open spec fn settled_polls(locks: Seq<(u64, VoterInfo)>, statuses: Seq<PollStatus>) -> Seq<u64>
    decreases locks.len(),
{
    if locks.len() == 0 {
        Seq::empty()
    } else {
        let rest = settled_polls(locks.drop_last(), statuses.take(locks.len() - 1));
        if statuses[locks.len() - 1] == PollStatus::InProgress {
            rest
        } else {
            rest.push(locks.last().0)
        }
    }
}

/// The largest balance among some votes, 0 where there is none.
pub open spec fn max_locked(locks: Seq<(u64, VoterInfo)>) -> u128
    decreases locks.len(),
{
    if locks.len() == 0 {
        0
    } else {
        let m = max_locked(locks.drop_last());
        if locks.last().1.balance > m {
            locks.last().1.balance
        } else {
            m
        }
    }
}

/// The largest locked balance is at least every vote's balance, and is one of
/// them where there is any vote.
pub proof fn lemma_max_locked_is_max(locks: Seq<(u64, VoterInfo)>)
    ensures
        forall|i: int| 0 <= i < locks.len() ==> (#[trigger] locks[i]).1.balance <= max_locked(locks),
        locks.len() == 0 ==> max_locked(locks) == 0,
        locks.len() > 0 ==> exists|i: int| 0 <= i < locks.len() && (#[trigger] locks[i]).1.balance == max_locked(locks),
    decreases locks.len(),
{
    if locks.len() > 0 {
        let prefix = locks.drop_last();
        lemma_max_locked_is_max(prefix);
        assert forall|i: int| 0 <= i < locks.len() implies (#[trigger] locks[i]).1.balance <= max_locked(locks) by {
            if i < locks.len() - 1 {
                assert(locks[i] == prefix[i]);
            }
        }
        if prefix.len() > 0 && locks.last().1.balance <= max_locked(prefix) {
            let w = choose|i: int| 0 <= i < prefix.len() && (#[trigger] prefix[i]).1.balance == max_locked(prefix);
            assert(locks[w] == prefix[w]);
        } else {
            assert(locks[locks.len() - 1] == locks.last());
        }
    }
}

/// Separates a voter's votes into those whose poll is still in progress
/// (`statuses[i]` is the status of the poll of the `i`-th vote) and the polls
/// of the others; also returns the largest balance among the first.
pub fn split_locks(locks: &Vec<(u64, VoterInfo)>, statuses: &Vec<PollStatus>) -> (r: (
    Vec<(u64, VoterInfo)>,
    u128,
    Vec<u64>,
))
    requires
        locks@.len() == statuses@.len(),
    ensures
        r.0@ == live_locks(locks@, statuses@),
        r.1 == max_locked(r.0@),
        r.2@ == settled_polls(locks@, statuses@),
{
    let mut kept: Vec<(u64, VoterInfo)> = Vec::new();
    let mut removed: Vec<u64> = Vec::new();
    let mut max: u128 = 0;
    let mut i: usize = 0;
    let n = locks.len();
    proof {
        assert(locks@.take(0) =~= Seq::<(u64, VoterInfo)>::empty());
    }
    while i < n
        invariant
            n == locks@.len(),
            statuses@.len() == n,
            0 <= i <= n,
            kept@ == live_locks(locks@.take(i as int), statuses@.take(i as int)),
            removed@ == settled_polls(locks@.take(i as int), statuses@.take(i as int)),
            max == max_locked(kept@),
        decreases n - i,
    {
        let entry = locks[i];
        let live = match statuses[i] {
            PollStatus::InProgress => true,
            _ => false,
        };
        proof {
            let t = locks@.take(i + 1);
            assert(t.drop_last() =~= locks@.take(i as int));
            assert(statuses@.take(i + 1).take(i as int) =~= statuses@.take(i as int));
            assert(t.last() == locks@[i as int]);
        }
        if live {
            kept.push(entry);
            if entry.1.balance > max {
                max = entry.1.balance;
            }
            proof {
                assert(kept@.drop_last() =~= live_locks(locks@.take(i as int), statuses@.take(i as int)));
            }
        } else {
            removed.push(entry.0);
        }
        i = i + 1;
    }
    proof {
        assert(locks@.take(n as int) =~= locks@);
        assert(statuses@.take(n as int) =~= statuses@);
    }
    (kept, max, removed)
}

/// Drops from a voter's token manager the votes whose poll is no longer in
/// progress (`statuses[i]` is the status of the poll of the `i`-th vote) and
/// returns the largest balance still locked by a vote, with the polls whose
/// vote records are to be deleted.
pub fn compute_locked_balance(token_manager: &mut TokenManager, statuses: &Vec<PollStatus>) -> (r: (
    u128,
    Vec<u64>,
))
    requires
        old(token_manager).locked_balance@.len() == statuses@.len(),
    ensures
        final(token_manager).deposit == old(token_manager).deposit,
        final(token_manager).locked_balance@ == live_locks(old(token_manager).locked_balance@, statuses@),
        r.0 == max_locked(final(token_manager).locked_balance@),
        r.1@ == settled_polls(old(token_manager).locked_balance@, statuses@),
{
    let (kept, max, removed) = split_locks(&token_manager.locked_balance, statuses);
    token_manager.locked_balance = kept;
    (max, removed)
}

/// Withdraws `amount` (all that is not locked, where `None`) of a voter's
/// staked voting tokens. `statuses[i]` is the status of the poll of the
/// voter's `i`-th vote; votes on polls no longer in progress are dropped
/// first. Returns the manager to store, the polls whose vote records are to be
/// deleted, and the transfer of xPRISM to the voter.
pub fn withdraw_voting_tokens(
    cfg: &Config,
    sender: String,
    token_manager: Option<TokenManager>,
    statuses: &Vec<PollStatus>,
    amount: Option<u128>,
) -> (r: Result<(TokenManager, Vec<u64>, Action), GovError>)
    requires
        token_manager matches Some(t) ==> t.locked_balance@.len() == statuses@.len(),
    ensures
        token_manager is None ==> r == Err::<(TokenManager, Vec<u64>, Action), GovError>(
            GovError::NoVotingInfo,
        ),
        token_manager matches Some(t) ==> {
            let live = live_locks(t.locked_balance@, statuses@);
            let locked = max_locked(live);
            let withdrawable = t.deposit - locked;
            let amt = match amount {
                Some(a) => a as int,
                None => withdrawable,
            };
            if locked > t.deposit {
                r == Err::<(TokenManager, Vec<u64>, Action), GovError>(GovError::Overflow)
            } else if amt > withdrawable {
                r == Err::<(TokenManager, Vec<u64>, Action), GovError>(GovError::WithdrawTooMany)
            } else if cfg.xprism_token is None {
                r == Err::<(TokenManager, Vec<u64>, Action), GovError>(GovError::Aborted)
            } else {
                r matches Ok((ntm, removed, action)) && ntm.deposit == t.deposit - amt
                    && ntm.locked_balance@ == live && removed@ == settled_polls(
                    t.locked_balance@,
                    statuses@,
                ) && action == (Action::Transfer {
                    token: cfg.xprism_token->Some_0,
                    recipient: sender,
                    amount: amt as u128,
                })
            }
        },
        r matches Ok((ntm, _removed, _action)) ==> forall|i: int|
            0 <= i < ntm.locked_balance@.len() ==> (#[trigger] ntm.locked_balance@[i]).1.balance
                <= ntm.deposit,
{
    let mut tm = match token_manager {
        Some(t) => t,
        None => return Err(GovError::NoVotingInfo),
    };
    let (locked, removed) = compute_locked_balance(&mut tm, statuses);
    proof {
        lemma_max_locked_is_max(tm.locked_balance@);
    }
    if locked > tm.deposit {
        return Err(GovError::Overflow);
    }
    let withdrawable = tm.deposit - locked;
    let amt = match amount {
        Some(a) => a,
        None => withdrawable,
    };
    if amt > withdrawable {
        return Err(GovError::WithdrawTooMany);
    }
    tm.deposit = tm.deposit - amt;
    let token = match &cfg.xprism_token {
        Some(t) => t.clone(),
        None => return Err(GovError::Aborted),
    };
    Ok((tm, removed, Action::Transfer { token, recipient: sender, amount: amt }))
}

/// A voter's staked deposit and the votes still locking it (those whose poll
/// is in progress; `statuses[i]` is the status of the poll of the `i`-th vote).
pub fn query_voting_tokens(token_manager: Option<TokenManager>, statuses: &Vec<PollStatus>) -> (r:
    Result<(u128, Vec<(u64, VoterInfo)>), GovError>)
    requires
        token_manager matches Some(t) ==> t.locked_balance@.len() == statuses@.len(),
    ensures
        token_manager is None ==> r == Err::<(u128, Vec<(u64, VoterInfo)>), GovError>(
            GovError::NoVotingInfo,
        ),
        token_manager matches Some(t) ==> (r matches Ok((d, locks)) && d == t.deposit && locks@
            == live_locks(t.locked_balance@, statuses@)),
{
    let mut tm = match token_manager {
        Some(t) => t,
        None => return Err(GovError::NoVotingInfo),
    };
    let _ = compute_locked_balance(&mut tm, statuses);
    Ok((tm.deposit, tm.locked_balance))
}


/// Orders a claim processes at most.
pub const MAX_ORDER_WITHDRAW_PER_TX: usize = 50usize;

/// Page size of a listing where none is asked for.
pub const DEFAULT_LIMIT: u32 = 10u32;

/// Largest page size of a listing.
pub const MAX_LIMIT: u32 = 30u32;

/// Nanoseconds in a second.
pub const NANOS_PER_SECOND: u64 = 1_000_000_000u64;

/// The xPRISM redeemed and the PRISM owed for it, over all withdraw orders
/// not yet claimed.
#[derive(Clone, Copy, Debug, PartialEq, Eq)]
pub struct PendingWithdraw {
    pub xprism: u128,
    pub prism: u128,
}

/// The xPRISM and PRISM that back the exchange rate: the xPRISM supply and the
/// PRISM the contract holds (`prism_balance`), each less what pending
/// withdraw orders take; `None` where pending orders take more than there is.
pub open spec fn effective(prism_balance: u128, xprism_supply: u128, pending: PendingWithdraw) -> Option<
    (int, int),
> {
    if pending.xprism > xprism_supply || pending.prism > prism_balance {
        None
    } else {
        Some((xprism_supply - pending.xprism, prism_balance - pending.prism))
    }
}

/// The exchange rate of xPRISM to PRISM (a decimal in atomic units) with the
/// effective xPRISM supply and PRISM behind it. `prism_balance` is the PRISM
/// the contract holds, `xprism_supply` the xPRISM supply.
pub fn query_xprism_state(prism_balance: u128, xprism_supply: u128, pending: PendingWithdraw) -> (r:
    Result<(u128, u128, u128), GovError>)
    ensures
        match effective(prism_balance, xprism_supply, pending) {
            None => r == Err::<(u128, u128, u128), GovError>(GovError::Overflow),
            Some((es, ep)) => if es == 0 || decimal_ratio(ep, es) > u128::MAX {
                r == Err::<(u128, u128, u128), GovError>(GovError::Aborted)
            } else {
                r == Ok::<(u128, u128, u128), GovError>(
                    (decimal_ratio(ep, es) as u128, es as u128, ep as u128),
                )
            },
        },
{
    if pending.xprism > xprism_supply || pending.prism > prism_balance {
        return Err(GovError::Overflow);
    }
    let es = xprism_supply - pending.xprism;
    let ep = prism_balance - pending.prism;
    let rate = match from_ratio(ep, es) {
        Some(v) => v,
        None => return Err(GovError::Aborted),
    };
    Ok((rate, es, ep))
}

/// Mints xPRISM for `amount` PRISM deposited by `sender` (received as a cw20
/// hook): one for one while the effective xPRISM supply is zero, else at the
/// rate of the effective xPRISM supply to the effective PRISM before the
/// deposit (`prism_balance` already holds the deposit).
pub fn mint_xprism(
    cfg: &Config,
    sender: String,
    amount: u128,
    prism_balance: u128,
    xprism_supply: u128,
    pending: PendingWithdraw,
) -> (r: Result<Action, GovError>)
    ensures
        cfg.xprism_token is None ==> r == Err::<Action, GovError>(GovError::Aborted),
        cfg.xprism_token is Some ==> match effective(prism_balance, xprism_supply, pending) {
            None => r == Err::<Action, GovError>(GovError::Overflow),
            Some((es, ep)) => if es == 0 {
                r == Ok::<Action, GovError>(Action::MintXprism { recipient: sender, amount })
            } else if amount > ep {
                r == Err::<Action, GovError>(GovError::Overflow)
            } else if ep - amount == 0 || ratio_of(amount as int, es, ep - amount) > u128::MAX {
                r == Err::<Action, GovError>(GovError::Aborted)
            } else {
                r == Ok::<Action, GovError>(
                    Action::MintXprism {
                        recipient: sender,
                        amount: ratio_of(amount as int, es, ep - amount) as u128,
                    },
                )
            },
        },
{
    if cfg.xprism_token.is_none() {
        return Err(GovError::Aborted);
    }
    if pending.xprism > xprism_supply || pending.prism > prism_balance {
        return Err(GovError::Overflow);
    }
    let es = xprism_supply - pending.xprism;
    let ep = prism_balance - pending.prism;
    let minted = if es == 0 {
        amount
    } else {
        if amount > ep {
            return Err(GovError::Overflow);
        }
        match multiply_ratio(amount, es, ep - amount) {
            Some(v) => v,
            None => return Err(GovError::Aborted),
        }
    };
    Ok(Action::MintXprism { recipient: sender, amount: minted })
}

/// The end time (in seconds) of a redemption made at the block time
/// `now_nanos` (in nanoseconds): `redemption_time` seconds later; `None` where
/// that overflows.
pub open spec fn redemption_end(cfg: Config, now_nanos: u64) -> Option<u64> {
    let end_nanos = now_nanos + cfg.redemption_time * NANOS_PER_SECOND;
    if end_nanos > u64::MAX {
        None
    } else {
        Some((end_nanos / NANOS_PER_SECOND as int) as u64)
    }
}

/// Whether one of the orders ends at `end`.
pub open spec fn has_order_at(orders: Seq<(u64, u128, u128)>, end: u64) -> bool {
    exists|i: int| 0 <= i < orders.len() && #[trigger] orders[i].0 == end
}

/// Queues the redemption of `amount` xPRISM (received as a cw20 hook) by a
/// sender whose withdraw orders are `orders`, for the PRISM it is worth now (at
/// the rate of the effective PRISM to the effective xPRISM supply). The block
/// time is given in nanoseconds. The order ends `redemption_time` seconds from
/// now; a sender has at most one order per end time, so a second redemption
/// in a block is refused. Returns the order to store, `(end_time, xprism,
/// prism)`, and the new pending totals.
pub fn redeem_xprism(
    cfg: &Config,
    orders: &Vec<(u64, u128, u128)>,
    amount: u128,
    now_nanos: u64,
    prism_balance: u128,
    xprism_supply: u128,
    pending: PendingWithdraw,
) -> (r: Result<((u64, u128, u128), PendingWithdraw), GovError>)
    ensures
        cfg.xprism_token is None || redemption_end(*cfg, now_nanos) is None ==> r == Err::<
            ((u64, u128, u128), PendingWithdraw),
            GovError,
        >(GovError::Aborted),
        cfg.xprism_token is Some && redemption_end(*cfg, now_nanos) is Some ==> {
            let end = redemption_end(*cfg, now_nanos)->Some_0;
            if has_order_at(orders@, end) {
                r == Err::<((u64, u128, u128), PendingWithdraw), GovError>(
                    GovError::OneRedeemPerBlock,
                )
            } else {
                match effective(prism_balance, xprism_supply, pending) {
                    None => r == Err::<((u64, u128, u128), PendingWithdraw), GovError>(
                        GovError::Overflow,
                    ),
                    Some((es, ep)) => {
                        let prism = ratio_of(amount as int, ep, es);
                        if es == 0 || prism > u128::MAX || pending.xprism + amount > u128::MAX
                            || pending.prism + prism > u128::MAX {
                            r == Err::<((u64, u128, u128), PendingWithdraw), GovError>(
                                GovError::Aborted,
                            )
                        } else {
                            r == Ok::<((u64, u128, u128), PendingWithdraw), GovError>(
                                (
                                    (end, amount, prism as u128),
                                    PendingWithdraw {
                                        xprism: (pending.xprism + amount) as u128,
                                        prism: (pending.prism + prism) as u128,
                                    },
                                ),
                            )
                        }
                    },
                }
            }
        },
{
    if cfg.xprism_token.is_none() {
        return Err(GovError::Aborted);
    }
    let delay = match cfg.redemption_time.checked_mul(NANOS_PER_SECOND) {
        Some(v) => v,
        None => return Err(GovError::Aborted),
    };
    let end_nanos = match now_nanos.checked_add(delay) {
        Some(v) => v,
        None => return Err(GovError::Aborted),
    };
    let end = end_nanos / NANOS_PER_SECOND;
    assert(redemption_end(*cfg, now_nanos) == Some(end));
    let mut i: usize = 0;
    while i < orders.len()
        invariant
            0 <= i <= orders@.len(),
            cfg.xprism_token is Some,
            redemption_end(*cfg, now_nanos) == Some(end),
            forall|j: int| 0 <= j < i ==> #[trigger] orders@[j].0 != end,
        decreases orders@.len() - i,
    {
        if orders[i].0 == end {
            return Err(GovError::OneRedeemPerBlock);
        }
        i = i + 1;
    }
    if pending.xprism > xprism_supply || pending.prism > prism_balance {
        return Err(GovError::Overflow);
    }
    let es = xprism_supply - pending.xprism;
    let ep = prism_balance - pending.prism;
    let prism = match multiply_ratio(amount, ep, es) {
        Some(v) => v,
        None => return Err(GovError::Aborted),
    };
    let px = match pending.xprism.checked_add(amount) {
        Some(v) => v,
        None => return Err(GovError::Aborted),
    };
    let pp = match pending.prism.checked_add(prism) {
        Some(v) => v,
        None => return Err(GovError::Aborted),
    };
    Ok(((end, amount, prism), PendingWithdraw { xprism: px, prism: pp }))
}

/// The xPRISM and the PRISM of some withdraw orders `(end_time, xprism, prism)`.
pub open spec fn sum_orders(orders: Seq<(u64, u128, u128)>) -> (int, int)
    decreases orders.len(),
{
    if orders.len() == 0 {
        (0, 0)
    } else {
        let rest = sum_orders(orders.drop_last());
        (rest.0 + orders.last().1, rest.1 + orders.last().2)
    }
}

/// The number of leading withdraw orders a claim at `now` settles, counting
/// from index `i`: counting stops at the end of the list, at
/// `MAX_ORDER_WITHDRAW_PER_TX`, or at the first order that ends after `now`.
pub open spec fn matured_from(orders: Seq<(u64, u128, u128)>, now: u64, i: int) -> int
    decreases orders.len() - i,
{
    if i < 0 || i >= orders.len() || i >= MAX_ORDER_WITHDRAW_PER_TX || now < orders[i].0 {
        i
    } else {
        matured_from(orders, now, i + 1)
    }
}

proof fn lemma_sum_orders_step(v: Seq<(u64, u128, u128)>, i: int)
    requires
        0 <= i < v.len(),
    ensures
        sum_orders(v.take(i + 1)).0 == sum_orders(v.take(i)).0 + v[i].1,
        sum_orders(v.take(i + 1)).1 == sum_orders(v.take(i)).1 + v[i].2,
{
    assert(v.take(i + 1).drop_last() =~= v.take(i));
}

proof fn lemma_matured_bounds(v: Seq<(u64, u128, u128)>, now: u64, i: int)
    requires
        0 <= i <= v.len(),
        i <= MAX_ORDER_WITHDRAW_PER_TX,
    ensures
        i <= matured_from(v, now, i) <= v.len(),
        matured_from(v, now, i) <= MAX_ORDER_WITHDRAW_PER_TX,
    decreases v.len() - i,
{
    if !(i >= v.len() || i >= MAX_ORDER_WITHDRAW_PER_TX || now < v[i].0) {
        lemma_matured_bounds(v, now, i + 1);
    }
}

/// Settles the withdraw orders of a user that have ended at `now`: `orders`
/// are the user's orders `(end_time, xprism, prism)` in ascending end time.
/// Returns the xPRISM to burn, the PRISM to pay out and how many leading
/// orders are settled (and to be deleted).
pub fn compute_withdrawable(orders: &Vec<(u64, u128, u128)>, now: u64) -> (r: Result<
    (u128, u128, usize),
    GovError,
>)
    ensures
        ({
            let k = matured_from(orders@, now, 0);
            let sums = sum_orders(orders@.take(k));
            &&& r is Ok <==> (sums.0 <= u128::MAX && sums.1 <= u128::MAX)
            &&& r is Err ==> r->Err_0 == GovError::Aborted
            &&& r matches Ok((x, p, n)) ==> x == sums.0 && p == sums.1 && n == k
        }),
        r matches Ok((_x, _p, n)) ==> {
            &&& n <= MAX_ORDER_WITHDRAW_PER_TX
            &&& forall|j: int| 0 <= j < n ==> (#[trigger] orders@[j]).0 <= now
            &&& n == orders@.len() || n == MAX_ORDER_WITHDRAW_PER_TX || now < orders@[n as int].0
        },
{
    let mut wx: u128 = 0;
    let mut wp: u128 = 0;
    let mut overflowed = false;
    let mut i: usize = 0;
    let n = orders.len();
    proof {
        assert(orders@.take(0) =~= Seq::<(u64, u128, u128)>::empty());
        lemma_matured_bounds(orders@, now, 0);
    }
    while i < n && i < MAX_ORDER_WITHDRAW_PER_TX && orders[i].0 <= now
        invariant
            n == orders@.len(),
            0 <= i <= n,
            i <= MAX_ORDER_WITHDRAW_PER_TX,
            matured_from(orders@, now, i as int) == matured_from(orders@, now, 0),
            forall|j: int| 0 <= j < i ==> (#[trigger] orders@[j]).0 <= now,
            !overflowed ==> wx == sum_orders(orders@.take(i as int)).0 && wp == sum_orders(
                orders@.take(i as int),
            ).1,
            overflowed ==> (sum_orders(orders@.take(i as int)).0 > u128::MAX || sum_orders(
                orders@.take(i as int),
            ).1 > u128::MAX),
        decreases n - i,
    {
        proof {
            lemma_sum_orders_step(orders@, i as int);
        }
        if !overflowed {
            match (wx.checked_add(orders[i].1), wp.checked_add(orders[i].2)) {
                (Some(a), Some(b)) => {
                    wx = a;
                    wp = b;
                },
                _ => {
                    overflowed = true;
                },
            }
        }
        i = i + 1;
    }
    proof {
        lemma_matured_bounds(orders@, now, 0);
        assert(matured_from(orders@, now, i as int) == i);
        if i < n && i < MAX_ORDER_WITHDRAW_PER_TX {
            assert(now < orders@[i as int].0);
        }
    }
    if overflowed {
        return Err(GovError::Aborted);
    }
    Ok((wx, wp, i))
}

/// Pays out the withdraw orders of `sender` that have ended at `now`
/// (`orders` are the sender's orders `(end_time, xprism, prism)` in ascending
/// end time): burns their xPRISM and transfers their PRISM, and takes them off
/// the pending totals. Returns how many leading orders are settled (and to be
/// deleted), the messages and the new pending totals.
pub fn claim_redeemed_prism(
    cfg: &Config,
    sender: String,
    orders: &Vec<(u64, u128, u128)>,
    now: u64,
    pending: PendingWithdraw,
) -> (r: Result<(usize, Vec<Action>, PendingWithdraw), GovError>)
    ensures
        ({
            let k = matured_from(orders@, now, 0);
            let sums = sum_orders(orders@.take(k));
            if cfg.xprism_token is None || sums.0 > u128::MAX || sums.1 > u128::MAX {
                r == Err::<(usize, Vec<Action>, PendingWithdraw), GovError>(GovError::Aborted)
            } else if sums.0 == 0 && sums.1 == 0 {
                r == Err::<(usize, Vec<Action>, PendingWithdraw), GovError>(GovError::NothingToClaim)
            } else if sums.0 > pending.xprism || sums.1 > pending.prism {
                r == Err::<(usize, Vec<Action>, PendingWithdraw), GovError>(GovError::Overflow)
            } else {
                r matches Ok((n, actions, p)) && n == k && actions@ == seq![
                    Action::BurnXprism { amount: sums.0 as u128 },
                    Action::Transfer { token: cfg.prism_token, recipient: sender, amount: sums.1 as u128 },
                ] && p == (PendingWithdraw {
                    xprism: (pending.xprism - sums.0) as u128,
                    prism: (pending.prism - sums.1) as u128,
                })
            }
        }),
{
    if cfg.xprism_token.is_none() {
        return Err(GovError::Aborted);
    }
    let (wx, wp, n) = compute_withdrawable(orders, now)?;
    if wx == 0 && wp == 0 {
        return Err(GovError::NothingToClaim);
    }
    if wx > pending.xprism || wp > pending.prism {
        return Err(GovError::Overflow);
    }
    let actions = vec![
        Action::BurnXprism { amount: wx },
        Action::Transfer { token: cfg.prism_token.clone(), recipient: sender, amount: wp },
    ];
    Ok((n, actions, PendingWithdraw { xprism: pending.xprism - wx, prism: pending.prism - wp }))
}

/// Whether an order ending at `end` lies before the bound `t` (strictly, or
/// at or before it).
pub open spec fn before_bound(end: u64, t: u64, strict: bool) -> bool {
    if strict {
        end < t
    } else {
        end <= t
    }
}

/// Whether the orders before index `c` are exactly those before the bound `t`.
pub open spec fn splits_at(orders: Seq<(u64, u128, u128)>, c: int, t: u64, strict: bool) -> bool {
    &&& 0 <= c <= orders.len()
    &&& forall|j: int| 0 <= j < c ==> before_bound((#[trigger] orders[j]).0, t, strict)
    &&& forall|j: int| c <= j < orders.len() ==> !before_bound((#[trigger] orders[j]).0, t, strict)
}

/// The index that splits the orders before the bound `t` from the others.
pub open spec fn split_index(orders: Seq<(u64, u128, u128)>, t: u64, strict: bool) -> int {
    choose|c: int| splits_at(orders, c, t, strict)
}

proof fn lemma_split_unique(orders: Seq<(u64, u128, u128)>, c1: int, c2: int, t: u64, strict: bool)
    requires
        splits_at(orders, c1, t, strict),
        splits_at(orders, c2, t, strict),
    ensures
        c1 == c2,
{
    if c1 < c2 {
        assert(before_bound(orders[c1].0, t, strict));
    } else if c2 < c1 {
        assert(before_bound(orders[c2].0, t, strict));
    }
}

/// Finds the index that splits the ascending orders before the bound `t`
/// from the others.
fn find_split(orders: &Vec<(u64, u128, u128)>, t: u64, strict: bool) -> (c: usize)
    requires
        forall|i: int, j: int| 0 <= i < j < orders@.len() ==> orders@[i].0 < orders@[j].0,
    ensures
        c == split_index(orders@, t, strict),
        splits_at(orders@, c as int, t, strict),
{
    let mut i: usize = 0;
    while i < orders.len() && ((strict && orders[i].0 < t) || (!strict && orders[i].0 <= t))
        invariant
            0 <= i <= orders@.len(),
            forall|j: int| 0 <= j < i ==> before_bound((#[trigger] orders@[j]).0, t, strict),
        decreases orders@.len() - i,
    {
        i = i + 1;
    }
    proof {
        assert forall|j: int| i <= j < orders@.len() implies !before_bound((#[trigger] orders@[j]).0, t, strict) by {
            assert(!before_bound(orders@[i as int].0, t, strict));
            if j > i {
                assert(orders@[i as int].0 < orders@[j].0);
            }
        }
        assert(splits_at(orders@, i as int, t, strict));
        lemma_split_unique(orders@, i as int, split_index(orders@, t, strict), t, strict);
    }
    i
}

/// The PRISM of the listed orders `(end_time, prism)` that can be claimed at
/// `now` (those that ended before `now`).
pub open spec fn claimable_sum(page: Seq<(u64, u128)>, now: u64) -> int
    decreases page.len(),
{
    if page.len() == 0 {
        0
    } else {
        claimable_sum(page.drop_last(), now) + if now > page.last().0 {
            page.last().1 as int
        } else {
            0
        }
    }
}

/// The page size a listing uses for the size asked for.
pub open spec fn page_limit(limit: Option<u32>) -> int {
    let l = match limit {
        Some(l) => l,
        None => DEFAULT_LIMIT,
    };
    if l < MAX_LIMIT {
        l as int
    } else {
        MAX_LIMIT as int
    }
}

/// The page a listing of ascending orders returns: `(end_time, prism)` of the
/// orders after `start_after`, ascending (or of those before it,
/// descending), at most `page_limit(limit)` of them.
pub open spec fn orders_page(
    orders: Seq<(u64, u128, u128)>,
    start_after: Option<u64>,
    limit: Option<u32>,
    descending: bool,
) -> Seq<(u64, u128)> {
    let lim = page_limit(limit);
    if descending {
        let hi = match start_after {
            Some(t) => split_index(orders, t, true),
            None => orders.len() as int,
        };
        let m = if lim < hi { lim } else { hi };
        Seq::new(m as nat, |k: int| (orders[hi - 1 - k].0, orders[hi - 1 - k].2))
    } else {
        let lo = match start_after {
            Some(t) => split_index(orders, t, false),
            None => 0,
        };
        let m = if lim < orders.len() - lo { lim } else { orders.len() - lo };
        Seq::new(m as nat, |k: int| (orders[lo + k].0, orders[lo + k].2))
    }
}

/// Lists a user's withdraw orders (`orders`, in ascending end time) as
/// `(end_time, prism)`, a page after (or, descending, before) `start_after`,
/// with the PRISM of the listed orders claimable at `now`.
pub fn query_prism_withdraw_orders(
    orders: &Vec<(u64, u128, u128)>,
    now: u64,
    start_after: Option<u64>,
    limit: Option<u32>,
    descending: bool,
) -> (r: Result<(u128, Vec<(u64, u128)>), GovError>)
    requires
        forall|i: int, j: int| 0 <= i < j < orders@.len() ==> orders@[i].0 < orders@[j].0,
    ensures
        ({
            let page = orders_page(orders@, start_after, limit, descending);
            if claimable_sum(page, now) > u128::MAX {
                r == Err::<(u128, Vec<(u64, u128)>), GovError>(GovError::Aborted)
            } else {
                r matches Ok((c, listed)) && c == claimable_sum(page, now) && listed@ == page
            }
        }),
{
    let lim_raw: u32 = match limit {
        Some(l) => l,
        None => DEFAULT_LIMIT,
    };
    let lim: usize = if lim_raw < MAX_LIMIT {
        lim_raw as usize
    } else {
        MAX_LIMIT as usize
    };
    let ghost spec_page = orders_page(orders@, start_after, limit, descending);
    let n = orders.len();
    let (base, m): (usize, usize) = if descending {
        let hi = match start_after {
            Some(t) => find_split(orders, t, true),
            None => n,
        };
        (hi, if lim < hi { lim } else { hi })
    } else {
        let lo = match start_after {
            Some(t) => find_split(orders, t, false),
            None => 0,
        };
        (lo, if lim < n - lo { lim } else { n - lo })
    };
    assert(spec_page.len() == m);
    let mut page: Vec<(u64, u128)> = Vec::new();
    let mut claimable: u128 = 0;
    let mut overflowed = false;
    let mut k: usize = 0;
    while k < m
        invariant
            spec_page.len() == m,
            n == orders@.len(),
            descending ==> m <= base <= n,
            !descending ==> base + m <= n,
            spec_page == orders_page(orders@, start_after, limit, descending),
            forall|q: int| 0 <= q < m ==> #[trigger] spec_page[q] == if descending {
                (orders@[base - 1 - q].0, orders@[base - 1 - q].2)
            } else {
                (orders@[base + q].0, orders@[base + q].2)
            },
            0 <= k <= m,
            page@ == spec_page.take(k as int),
            !overflowed ==> claimable == claimable_sum(page@, now),
            overflowed ==> claimable_sum(page@, now) > u128::MAX,
        decreases m - k,
    {
        let idx = if descending {
            base - 1 - k
        } else {
            base + k
        };
        let item = (orders[idx].0, orders[idx].2);
        assert(item == spec_page[k as int]);
        page.push(item);
        proof {
            assert(page@.drop_last() =~= spec_page.take(k as int));
            assert(page@ =~= spec_page.take(k + 1));
        }
        if !overflowed && now > item.0 {
            match claimable.checked_add(item.1) {
                Some(v) => {
                    claimable = v;
                },
                None => {
                    overflowed = true;
                },
            }
        }
        k = k + 1;
    }
    proof {
        assert(page@ =~= spec_page);
    }
    if overflowed {
        return Err(GovError::Aborted);
    }
    Ok((claimable, page))
}

proof fn lemma_floor_times_divisor(a: int, b: int, c: int)
    requires
        a >= 0,
        b >= 0,
        c > 0,
    ensures
        (a * b / c) * c <= a * b,
        a * b / c >= 0,
{
    vstd::arithmetic::div_mod::lemma_fundamental_div_mod(a * b, c);
    vstd::arithmetic::div_mod::lemma_mod_bound(a * b, c);
    assert(a * b >= 0) by (nonlinear_arith)
        requires
            a >= 0,
            b >= 0,
    ;
    vstd::arithmetic::div_mod::lemma_div_pos_is_pos(a * b, c);
    assert((a * b / c) * c == c * (a * b / c)) by (nonlinear_arith);
}

/// A redemption never lowers the PRISM behind each remaining xPRISM: the
/// redeemed xPRISM takes at most its share of the effective PRISM, so the
/// effective PRISM left times the effective supply before is at least the
/// effective PRISM before times the effective supply left.
pub proof fn lemma_redeem_keeps_backing(
    prism_balance: u128,
    xprism_supply: u128,
    pending: PendingWithdraw,
    amount: u128,
)
    requires
        effective(prism_balance, xprism_supply, pending) is Some,
        effective(prism_balance, xprism_supply, pending)->Some_0.0 > 0,
    ensures
        ({
            let (es, ep) = effective(prism_balance, xprism_supply, pending)->Some_0;
            let prism = ratio_of(amount as int, ep, es);
            (ep - prism) * es >= ep * (es - amount)
        }),
{
    let (es, ep) = effective(prism_balance, xprism_supply, pending)->Some_0;
    let a = amount as int;
    lemma_floor_times_divisor(a, ep, es);
    let prism = a * ep / es;
    assert((ep - prism) * es == ep * es - prism * es) by (nonlinear_arith);
    assert(ep * (es - a) == ep * es - a * ep) by (nonlinear_arith);
    assert(prism * es == (a * ep / es) * es);
}

/// A mint never lowers the PRISM behind each xPRISM: the xPRISM minted for a
/// deposit is at most its share, so the effective PRISM after the deposit
/// times the effective supply before is at least the effective PRISM before
/// times the effective supply after.
pub proof fn lemma_mint_keeps_backing(
    prism_balance: u128,
    xprism_supply: u128,
    pending: PendingWithdraw,
    amount: u128,
)
    requires
        effective(prism_balance, xprism_supply, pending) is Some,
        amount < effective(prism_balance, xprism_supply, pending)->Some_0.1,
    ensures
        ({
            let (es, ep) = effective(prism_balance, xprism_supply, pending)->Some_0;
            let before = ep - amount;
            let minted = ratio_of(amount as int, es, before);
            ep * es >= before * (es + minted)
        }),
{
    let (es, ep) = effective(prism_balance, xprism_supply, pending)->Some_0;
    let a = amount as int;
    let before = ep - a;
    lemma_floor_times_divisor(a, es, before);
    let minted = a * es / before;
    assert(before * (es + minted) == before * es + minted * before) by (nonlinear_arith);
    assert(ep * es == before * es + a * es) by (nonlinear_arith)
        requires
            ep == before + a,
    ;
}

/// Claiming settled orders leaves the exchange rate's inputs as they were:
/// the PRISM paid out and the xPRISM burnt leave the balance, the supply and
/// the pending totals alike.
pub proof fn lemma_claim_keeps_effective(
    prism_balance: u128,
    xprism_supply: u128,
    pending: PendingWithdraw,
    xprism: u128,
    prism: u128,
)
    requires
        xprism <= pending.xprism,
        prism <= pending.prism,
        pending.xprism <= xprism_supply,
        pending.prism <= prism_balance,
    ensures
        effective(
            (prism_balance - prism) as u128,
            (xprism_supply - xprism) as u128,
            PendingWithdraw {
                xprism: (pending.xprism - xprism) as u128,
                prism: (pending.prism - prism) as u128,
            },
        ) == effective(prism_balance, xprism_supply, pending),
{
}

} // verus!
