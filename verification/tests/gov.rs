use cosmwasm_std::testing::{mock_env, MOCK_CONTRACT_ADDR};
use cosmwasm_std::{Decimal, Uint128};
use prism_contracts::gov;
use prism_contracts::gov::{
    cast_vote, check_cw20_hook, claim_redeemed_prism, create_poll, end_poll, execute_poll,
    failed_poll, instantiate, query_voting_tokens,
    query_xprism_state, reply, set_xprism_token,
    stake_voting_tokens, Action, Config, ExecuteData,
    GovError, HookKind, PendingWithdraw, Poll, PollOutcome, PollStatus, ReplyKind, TokenManager,
    VoteOption, VoterInfo, MIN_POLL_GAS_LIMIT,
};
use std::collections::{BTreeMap, BTreeSet};

const VOTING_TOKEN: &str = "xprism0000";
const PRISM_TOKEN: &str = "prism_token";
const TEST_CREATOR: &str = "creator";
const TEST_VOTER: &str = "voter1";
const TEST_VOTER_2: &str = "voter2";
const TEST_VOTER_3: &str = "voter3";
const DEFAULT_QUORUM: u64 = 30u64;
const DEFAULT_THRESHOLD: u64 = 50u64;
const DEFAULT_VOTING_PERIOD: u64 = 10000u64;
const DEFAULT_EFFECTIVE_DELAY: u64 = 10000u64;
const DEFAULT_PROPOSAL_DEPOSIT: u128 = 10000000000u128;
const DEFAULT_SNAPSHOT_PERIOD: u64 = 10u64;
const DEFAULT_REDEMPTION_TIME: u64 = 21u64 * 24u64 * 60u64 * 60u64;
const DEFAULT_POLL_GAS_LIMIT: u64 = 1000000;

fn pct(p: u64) -> u128 {
    Decimal::percent(p).atomics().u128()
}

fn init_with_token(quorum: u128, threshold: u128, poll_gas_limit: u64) -> Result<(Config, Action), GovError> {
    instantiate(
        TEST_CREATOR.to_string(),
        MOCK_CONTRACT_ADDR.to_string(),
        1,
        PRISM_TOKEN.to_string(),
        quorum,
        threshold,
        DEFAULT_VOTING_PERIOD,
        DEFAULT_EFFECTIVE_DELAY,
        DEFAULT_PROPOSAL_DEPOSIT,
        DEFAULT_SNAPSHOT_PERIOD,
        DEFAULT_REDEMPTION_TIME,
        poll_gas_limit,
    )
}

fn init_cfg(quorum: u128, threshold: u128, poll_gas_limit: u64) -> Result<Config, GovError> {
    init_with_token(quorum, threshold, poll_gas_limit).map(|(cfg, _)| cfg)
}

/// Governance with its storage kept in maps.
struct Gov {
    cfg: Config,
    last_poll_id: u64,
    polls: BTreeMap<u64, Poll>,
    managers: BTreeMap<String, TokenManager>,
    voted: BTreeSet<(u64, String)>,
}

impl Gov {
    fn new() -> Gov {
        let cfg = init_cfg(pct(DEFAULT_QUORUM), pct(DEFAULT_THRESHOLD), DEFAULT_POLL_GAS_LIMIT).unwrap();
        let cfg = set_xprism_token(cfg, VOTING_TOKEN.to_string()).unwrap();
        Gov { cfg, last_poll_id: 1, polls: BTreeMap::new(), managers: BTreeMap::new(), voted: BTreeSet::new() }
    }

    fn create(&mut self, deposit: u128, title: &str, description: &str, link: Option<&str>, exec: Option<ExecuteData>, now: u64) -> Result<Poll, GovError> {
        let hook = check_cw20_hook(&self.cfg, &VOTING_TOKEN.to_string(), Some(HookKind::CreatePoll))?;
        assert_eq!(hook, HookKind::CreatePoll);
        let poll = create_poll(
            &self.cfg,
            self.last_poll_id,
            TEST_CREATOR.to_string(),
            deposit,
            title.to_string(),
            description.to_string(),
            link.map(|l| l.to_string()),
            exec,
            now,
        )?;
        self.polls.insert(poll.id, poll.clone());
        self.last_poll_id += 1;
        Ok(poll)
    }

    fn stake(&mut self, who: &str, amount: u128) -> Result<(), GovError> {
        let tm = stake_voting_tokens(self.managers.get(who).cloned(), amount)?;
        self.managers.insert(who.to_string(), tm);
        Ok(())
    }

    fn vote(&mut self, who: &str, poll_id: u64, vote: VoteOption, amount: u128, now: u64, supply: u128) -> Result<(), GovError> {
        let (poll, tm, _info) = cast_vote(
            &self.cfg,
            self.polls.get(&poll_id).cloned(),
            self.voted.contains(&(poll_id, who.to_string())),
            self.managers.get(who).cloned(),
            vote,
            amount,
            now,
            supply,
        )?;
        self.polls.insert(poll_id, poll);
        self.managers.insert(who.to_string(), tm);
        self.voted.insert((poll_id, who.to_string()));
        Ok(())
    }

    fn end(&mut self, poll_id: u64, now: u64, supply: u128) -> Result<(PollOutcome, Vec<Action>), GovError> {
        let (poll, outcome, actions) = end_poll(&self.cfg, self.polls[&poll_id].clone(), now, supply)?;
        self.polls.insert(poll_id, poll);
        Ok((outcome, actions))
    }

    fn execute(&mut self, poll_id: u64, now: u64) -> Result<Action, GovError> {
        let (poll, action) = execute_poll(&self.cfg, self.polls[&poll_id].clone(), now)?;
        self.polls.insert(poll_id, poll);
        Ok(action)
    }

    fn statuses(&self, who: &str) -> Vec<PollStatus> {
        match self.managers.get(who) {
            Some(tm) => tm.locked_balance.iter().map(|(id, _)| self.polls[id].status).collect(),
            None => vec![],
        }
    }

    fn withdraw(&mut self, who: &str, amount: Option<u128>) -> Result<Action, GovError> {
        let statuses = self.statuses(who);
        let (tm, removed, action) =
            gov::withdraw_voting_tokens(&self.cfg, who.to_string(), self.managers.get(who).cloned(), &statuses, amount)?;
        for id in removed {
            self.voted.remove(&(id, who.to_string()));
        }
        self.managers.insert(who.to_string(), tm);
        Ok(action)
    }

    fn voting_tokens(&self, who: &str) -> Result<(u128, Vec<(u64, VoterInfo)>), GovError> {
        query_voting_tokens(self.managers.get(who).cloned(), &self.statuses(who))
    }
}

fn xprism_transfer(recipient: &str, amount: u128) -> Action {
    Action::Transfer { token: VOTING_TOKEN.to_string(), recipient: recipient.to_string(), amount }
}

fn burn_msg() -> Vec<u8> {
    br#"{"burn":{"amount":"123"}}"#.to_vec()
}

#[test]
fn gov_proper_initialization() {
    let err = init_cfg(pct(DEFAULT_QUORUM), pct(DEFAULT_THRESHOLD), MIN_POLL_GAS_LIMIT - 1).unwrap_err();
    assert_eq!(err, GovError::GasLimitTooSmall);

    let (cfg, token) = init_with_token(pct(DEFAULT_QUORUM), pct(DEFAULT_THRESHOLD), DEFAULT_POLL_GAS_LIMIT).unwrap();
    assert_eq!(
        token,
        Action::InstantiateXprism {
            code_id: 1,
            name: "Prism Governance Token".to_string(),
            symbol: "xPRISM".to_string(),
            decimals: 6,
            minter: MOCK_CONTRACT_ADDR.to_string(),
        }
    );
    assert_eq!(reply(2), Ok(ReplyKind::XprismInstantiated));
    let cfg = set_xprism_token(cfg, VOTING_TOKEN.to_string()).unwrap();
    assert_eq!(
        cfg,
        Config {
            owner: TEST_CREATOR.to_string(),
            xprism_token: Some(VOTING_TOKEN.to_string()),
            prism_token: PRISM_TOKEN.to_string(),
            quorum: pct(DEFAULT_QUORUM),
            threshold: pct(DEFAULT_THRESHOLD),
            voting_period: DEFAULT_VOTING_PERIOD,
            effective_delay: DEFAULT_EFFECTIVE_DELAY,
            proposal_deposit: DEFAULT_PROPOSAL_DEPOSIT,
            snapshot_period: DEFAULT_SNAPSHOT_PERIOD,
            redemption_time: DEFAULT_REDEMPTION_TIME,
            poll_gas_limit: DEFAULT_POLL_GAS_LIMIT,
        }
    );
    assert_eq!(set_xprism_token(cfg, "other".to_string()).unwrap_err(), GovError::XprismTokenAlreadySet);
    assert_eq!(reply(3), Err(GovError::InvalidReplyId));
}

#[test]
fn fails_create_poll_invalid_quorum() {
    assert_eq!(init_cfg(pct(101), pct(DEFAULT_THRESHOLD), DEFAULT_POLL_GAS_LIMIT).unwrap_err(), GovError::InvalidQuorum);
}

#[test]
fn fails_create_poll_invalid_threshold() {
    assert_eq!(init_cfg(pct(DEFAULT_QUORUM), pct(101), DEFAULT_POLL_GAS_LIMIT).unwrap_err(), GovError::InvalidThreshold);
}

const LONG: &str = "0123456789012345678901234567890123456789012345678901234567890123401234567890123456789012345678901234567890123456789012345678901234012345678901234567890123456789012345678901234567890123456789012340123456789012345678901234567890123456789012345678901234567890123401234567890123456789012345678901234567890123456789012345678901234";

#[test]
fn fails_create_poll_invalid_title() {
    let mut gov = Gov::new();
    assert_eq!(gov.create(DEFAULT_PROPOSAL_DEPOSIT, "a", "test", None, None, 0).unwrap_err(), GovError::TitleTooShort);
    assert_eq!(gov.create(DEFAULT_PROPOSAL_DEPOSIT, LONG, "test", None, None, 0).unwrap_err(), GovError::TitleTooLong);
}

#[test]
fn fails_create_poll_invalid_description() {
    let mut gov = Gov::new();
    assert_eq!(gov.create(DEFAULT_PROPOSAL_DEPOSIT, "test", "a", None, None, 0).unwrap_err(), GovError::DescriptionTooShort);
    assert_eq!(gov.create(DEFAULT_PROPOSAL_DEPOSIT, "test", LONG, None, None, 0).unwrap_err(), GovError::DescriptionTooLong);
}

#[test]
fn fails_create_poll_invalid_link() {
    let mut gov = Gov::new();
    assert_eq!(gov.create(DEFAULT_PROPOSAL_DEPOSIT, "test", "test", Some("http://hih"), None, 0).unwrap_err(), GovError::LinkTooShort);
    assert_eq!(gov.create(DEFAULT_PROPOSAL_DEPOSIT, "test", "test", Some(LONG), None, 0).unwrap_err(), GovError::LinkTooLong);
}

#[test]
fn fails_create_poll_invalid_deposit() {
    let mut gov = Gov::new();
    assert_eq!(
        gov.create(DEFAULT_PROPOSAL_DEPOSIT - 1, "TESTTEST", "TESTTEST", None, None, 0).unwrap_err(),
        GovError::DepositTooSmall { proposal_deposit: DEFAULT_PROPOSAL_DEPOSIT }
    );
}

#[test]
fn happy_days_create_poll() {
    let mut gov = Gov::new();
    let poll = gov.create(DEFAULT_PROPOSAL_DEPOSIT, "test", "test", None, None, 10000).unwrap();
    assert_eq!(poll.id, 1);
    assert_eq!(poll.end_time, 10000 + DEFAULT_VOTING_PERIOD);
    assert_eq!(poll.creator, TEST_CREATOR);
    assert_eq!(poll.status, PollStatus::InProgress);
}

#[test]
fn create_poll_no_quorum() {
    let mut gov = Gov::new();
    let poll = gov.create(DEFAULT_PROPOSAL_DEPOSIT, "test", "test", None, None, 0).unwrap();
    assert_eq!(poll.id, 1);
    assert_eq!(poll.end_time, DEFAULT_VOTING_PERIOD);
}

#[test]
fn fails_end_poll_before_end_time() {
    let mut gov = Gov::new();
    let poll = gov.create(DEFAULT_PROPOSAL_DEPOSIT, "test", "test", None, None, 0).unwrap();
    assert_eq!(poll.end_time, DEFAULT_VOTING_PERIOD);
    assert_eq!(gov.end(1, 0, 0).unwrap_err(), GovError::VotingPeriodNotExpired);
}

#[test]
fn happy_days_end_poll() {
    const POLL_START_TIME: u64 = 1000;
    let stake_amount = 10000000000u128;
    let mut gov = Gov::new();
    let exec = ExecuteData { contract: VOTING_TOKEN.to_string(), msg: burn_msg() };
    gov.create(DEFAULT_PROPOSAL_DEPOSIT, "test", "test", None, Some(exec), POLL_START_TIME).unwrap();
    gov.stake(TEST_VOTER, stake_amount).unwrap();
    let supply = stake_amount + DEFAULT_PROPOSAL_DEPOSIT;
    gov.vote(TEST_VOTER, 1, VoteOption::Yes, stake_amount, POLL_START_TIME, supply).unwrap();

    // not in passed status
    assert_eq!(gov.execute(1, POLL_START_TIME).unwrap_err(), GovError::PollNotPassed);

    let end = POLL_START_TIME + DEFAULT_VOTING_PERIOD;
    let (outcome, msgs) = gov.end(1, end, supply).unwrap();
    assert_eq!(outcome, PollOutcome::Passed);
    assert_eq!(msgs, vec![xprism_transfer(TEST_CREATOR, DEFAULT_PROPOSAL_DEPOSIT)]);

    // effective delay has not expired
    assert_eq!(gov.execute(1, end).unwrap_err(), GovError::EffectiveDelayNotExpired);

    let action = gov.execute(1, end + DEFAULT_EFFECTIVE_DELAY).unwrap();
    assert_eq!(action, Action::ExecutePollMsg {
            contract: VOTING_TOKEN.to_string(),
            msg: burn_msg(),
            gas_limit: DEFAULT_POLL_GAS_LIMIT,
        });
    assert_eq!(gov.polls[&1].status, PollStatus::Executed);

    // staker locked token should have disappeared
    assert_eq!(gov.voting_tokens(TEST_VOTER).unwrap(), (stake_amount, vec![]));
}

#[test]
fn failed_execute_poll() {
    const POLL_START_TIME: u64 = 1000;
    let stake_amount = 10000000000u128;
    let mut gov = Gov::new();
    let exec = ExecuteData { contract: VOTING_TOKEN.to_string(), msg: burn_msg() };
    gov.create(DEFAULT_PROPOSAL_DEPOSIT, "test", "test", None, Some(exec), POLL_START_TIME).unwrap();
    gov.stake(TEST_VOTER, stake_amount).unwrap();
    let supply = stake_amount + DEFAULT_PROPOSAL_DEPOSIT;
    gov.vote(TEST_VOTER, 1, VoteOption::Yes, stake_amount, POLL_START_TIME, supply).unwrap();
    let end = POLL_START_TIME + DEFAULT_VOTING_PERIOD;
    let (_, msgs) = gov.end(1, end, supply).unwrap();
    assert_eq!(msgs, vec![xprism_transfer(TEST_CREATOR, DEFAULT_PROPOSAL_DEPOSIT)]);
    gov.execute(1, end + DEFAULT_EFFECTIVE_DELAY).unwrap();

    // the message fails: the reply marks the poll failed
    assert_eq!(reply(1), Ok(ReplyKind::PollExecuteFailed));
    let failed = failed_poll(gov.polls[&1].clone());
    assert_eq!(failed.status, PollStatus::Failed);
}

#[test]
fn end_poll_zero_quorum() {
    let mut gov = Gov::new();
    let exec = ExecuteData { contract: VOTING_TOKEN.to_string(), msg: burn_msg() };
    gov.create(DEFAULT_PROPOSAL_DEPOSIT, "test", "test", None, Some(exec), 10000).unwrap();
    gov.stake(TEST_VOTER, 100).unwrap();
    let (outcome, msgs) = gov.end(1, 10000 + DEFAULT_VOTING_PERIOD, 100 + DEFAULT_PROPOSAL_DEPOSIT).unwrap();
    assert_eq!(outcome, PollOutcome::QuorumNotReached);
    assert_eq!(msgs, vec![Action::BurnXprism { amount: DEFAULT_PROPOSAL_DEPOSIT }]);
    assert_eq!(gov.polls[&1].status, PollStatus::Rejected);
}

#[test]
fn end_poll_quorum_rejected() {
    let mut gov = Gov::new();
    let start = mock_env().block.time.seconds();
    let poll = gov.create(DEFAULT_PROPOSAL_DEPOSIT, "test", "test", None, None, start).unwrap();
    assert_eq!(poll.end_time, start + DEFAULT_VOTING_PERIOD);
    gov.stake(TEST_VOTER, 100).unwrap();
    let supply = 100 + DEFAULT_PROPOSAL_DEPOSIT;
    gov.vote(TEST_VOTER, 1, VoteOption::Yes, 10, start, supply).unwrap();
    let (outcome, msgs) = gov.end(1, start + DEFAULT_VOTING_PERIOD, supply).unwrap();
    assert_eq!(outcome, PollOutcome::QuorumNotReached);
    assert_eq!(msgs, vec![Action::BurnXprism { amount: DEFAULT_PROPOSAL_DEPOSIT }]);
}

#[test]
fn end_poll_quorum_rejected_noting_staked() {
    let mut gov = Gov::new();
    let start = mock_env().block.time.seconds();
    let poll = gov.create(DEFAULT_PROPOSAL_DEPOSIT, "test", "test", None, None, start).unwrap();
    let (outcome, _) = gov.end(1, poll.end_time, 1000000).unwrap();
    assert_eq!(outcome, PollOutcome::QuorumNotReached);
}

#[test]
fn end_poll_nay_rejected() {
    let voter1_stake = 10000000000u128;
    let voter2_stake = 100000000000u128;
    let mut gov = Gov::new();
    let start = mock_env().block.time.seconds();
    gov.create(DEFAULT_PROPOSAL_DEPOSIT, "test", "test", None, None, start).unwrap();
    gov.stake(TEST_VOTER, voter1_stake).unwrap();
    gov.stake(TEST_VOTER_2, voter2_stake).unwrap();
    let supply = voter1_stake + voter2_stake + DEFAULT_PROPOSAL_DEPOSIT;
    gov.vote(TEST_VOTER_2, 1, VoteOption::No, voter2_stake, start, supply).unwrap();
    let (outcome, _) = gov.end(1, start + DEFAULT_VOTING_PERIOD, supply).unwrap();
    assert_eq!(outcome, PollOutcome::ThresholdNotReached);
    assert_eq!(gov.polls[&1].status, PollStatus::Rejected);
}

#[test]
fn fails_cast_vote_not_enough_staked() {
    let mut gov = Gov::new();
    gov.create(DEFAULT_PROPOSAL_DEPOSIT, "test", "test", None, None, 0).unwrap();
    gov.stake(TEST_VOTER, 10).unwrap();
    assert_eq!(
        gov.vote(TEST_VOTER, 1, VoteOption::Yes, 11, 10000, 10 + DEFAULT_PROPOSAL_DEPOSIT).unwrap_err(),
        GovError::NotEnoughStaked
    );
}

#[test]
fn happy_days_cast_vote() {
    let mut gov = Gov::new();
    gov.create(DEFAULT_PROPOSAL_DEPOSIT, "test", "test", None, None, 0).unwrap();
    gov.stake(TEST_VOTER, 11).unwrap();
    gov.vote(TEST_VOTER, 1, VoteOption::Yes, 10, 0, 11 + DEFAULT_PROPOSAL_DEPOSIT).unwrap();
    let poll = &gov.polls[&1];
    assert_eq!(poll.yes_votes, 10);
    assert_eq!(poll.no_votes, 0);
    let (deposit, locked) = gov.voting_tokens(TEST_VOTER).unwrap();
    assert_eq!(deposit, 11);
    assert_eq!(locked, vec![(1, VoterInfo { vote: VoteOption::Yes, balance: 10 })]);
}

#[test]
fn happy_days_withdraw_voting_tokens() {
    let mut gov = Gov::new();
    gov.stake(TEST_VOTER, 11).unwrap();
    let msg = gov.withdraw(TEST_VOTER, Some(11)).unwrap();
    assert_eq!(msg, xprism_transfer(TEST_VOTER, 11));
}

#[test]
fn happy_days_withdraw_voting_tokens_all() {
    let mut gov = Gov::new();
    gov.stake(TEST_VOTER, 11).unwrap();
    let msg = gov.withdraw(TEST_VOTER, None).unwrap();
    assert_eq!(msg, xprism_transfer(TEST_VOTER, 11));
}

#[test]
fn withdraw_voting_tokens() {
    let mut gov = Gov::new();
    gov.create(DEFAULT_PROPOSAL_DEPOSIT, "test", "test", None, None, 0).unwrap();
    gov.stake(TEST_VOTER, 11).unwrap();
    gov.vote(TEST_VOTER, 1, VoteOption::Yes, 5, 0, 11 + DEFAULT_PROPOSAL_DEPOSIT).unwrap();

    // 5 are locked by the vote in progress
    assert_eq!(gov.withdraw(TEST_VOTER, Some(7)).unwrap_err(), GovError::WithdrawTooMany);
    assert_eq!(gov.withdraw(TEST_VOTER, None).unwrap(), xprism_transfer(TEST_VOTER, 6));

    // once the poll ends, the lock goes
    gov.end(1, DEFAULT_VOTING_PERIOD, 11 + DEFAULT_PROPOSAL_DEPOSIT).unwrap();
    assert_eq!(gov.withdraw(TEST_VOTER, None).unwrap(), xprism_transfer(TEST_VOTER, 5));
    assert_eq!(gov.managers[TEST_VOTER].locked_balance, vec![]);
    assert!(!gov.voted.contains(&(1, TEST_VOTER.to_string())));
}

#[test]
fn fails_withdraw_voting_tokens_no_stake() {
    let mut gov = Gov::new();
    assert_eq!(gov.withdraw(TEST_VOTER, Some(11)).unwrap_err(), GovError::NoVotingInfo);
}

#[test]
fn fails_withdraw_too_many_tokens() {
    let mut gov = Gov::new();
    gov.stake(TEST_VOTER, 10).unwrap();
    assert_eq!(gov.withdraw(TEST_VOTER, Some(11)).unwrap_err(), GovError::WithdrawTooMany);
}

#[test]
fn fails_cast_vote_twice() {
    let mut gov = Gov::new();
    gov.create(DEFAULT_PROPOSAL_DEPOSIT, "test", "test", None, None, 0).unwrap();
    gov.stake(TEST_VOTER, 11).unwrap();
    gov.vote(TEST_VOTER, 1, VoteOption::Yes, 1, 0, 11).unwrap();
    assert_eq!(gov.vote(TEST_VOTER, 1, VoteOption::Yes, 1, 0, 11).unwrap_err(), GovError::AlreadyVoted);
}

#[test]
fn fails_cast_vote_without_poll() {
    let mut gov = Gov::new();
    gov.stake(TEST_VOTER, 11).unwrap();
    assert_eq!(gov.vote(TEST_VOTER, 0, VoteOption::Yes, 1, 0, 11).unwrap_err(), GovError::PollNotFound);
}

#[test]
fn happy_days_stake_voting_tokens() {
    let mut gov = Gov::new();
    assert_eq!(check_cw20_hook(&gov.cfg, &VOTING_TOKEN.to_string(), Some(HookKind::StakeVotingTokens)), Ok(HookKind::StakeVotingTokens));
    gov.stake(TEST_VOTER, 11).unwrap();
    assert_eq!(gov.managers[TEST_VOTER].deposit, 11);
}

#[test]
fn fails_insufficient_funds() {
    let mut gov = Gov::new();
    assert_eq!(gov.stake(TEST_VOTER, 0).unwrap_err(), GovError::InsufficientFunds);
}

#[test]
fn fails_staking_wrong_token() {
    let gov = Gov::new();
    assert_eq!(
        check_cw20_hook(&gov.cfg, &(VOTING_TOKEN.to_string() + "2"), Some(HookKind::StakeVotingTokens)),
        Err(GovError::Unauthorized)
    );
}

#[test]
fn update_config() {
    let gov = Gov::new();
    let cfg = prism_contracts::gov::update_config(
        gov.cfg.clone(), &TEST_CREATOR.to_string(), Some("addr0001".to_string()),
        None, None, None, None, None, None, None, None,
    )
    .unwrap();
    assert_eq!(cfg.owner, "addr0001");
    assert_eq!(cfg.quorum, pct(DEFAULT_QUORUM));

    let cfg2 = prism_contracts::gov::update_config(
        cfg.clone(), &"addr0001".to_string(), None,
        Some(pct(20)), Some(pct(75)), Some(20000), Some(20000), Some(123), Some(11), Some(5), Some(DEFAULT_POLL_GAS_LIMIT + 1),
    )
    .unwrap();
    assert_eq!(cfg2.quorum, pct(20));
    assert_eq!(cfg2.threshold, pct(75));
    assert_eq!(cfg2.voting_period, 20000);
    assert_eq!(cfg2.effective_delay, 20000);
    assert_eq!(cfg2.proposal_deposit, 123);
    assert_eq!(cfg2.snapshot_period, 11);
    assert_eq!(cfg2.redemption_time, 5);

    // unauthorized
    assert_eq!(
        prism_contracts::gov::update_config(cfg, &TEST_CREATOR.to_string(), None, None, None, None, None, None, None, None, None)
            .unwrap_err(),
        GovError::Unauthorized
    );
}

#[test]
fn test_abstain_votes_theshold() {
    let mut gov = Gov::new();
    gov.create(DEFAULT_PROPOSAL_DEPOSIT, "test", "test", None, None, 0).unwrap();
    let (s1, s2, s3) = (10000000000u128, 10000000000u128, 10000000000u128);
    gov.stake(TEST_VOTER, s1).unwrap();
    gov.stake(TEST_VOTER_2, s2).unwrap();
    gov.stake(TEST_VOTER_3, s3).unwrap();
    let supply = s1 + s2 + s3 + DEFAULT_PROPOSAL_DEPOSIT;
    gov.vote(TEST_VOTER, 1, VoteOption::Abstain, s1, 0, supply).unwrap();
    gov.vote(TEST_VOTER_2, 1, VoteOption::No, s2, 0, supply).unwrap();
    gov.vote(TEST_VOTER_3, 1, VoteOption::Yes, s3, 0, supply).unwrap();
    // abstain votes do not count toward the threshold: 50% yes is not above 50%
    let (outcome, _) = gov.end(1, DEFAULT_VOTING_PERIOD, supply).unwrap();
    assert_eq!(outcome, PollOutcome::ThresholdNotReached);
}

#[test]
fn test_abstain_votes_quorum() {
    let mut gov = Gov::new();
    gov.create(DEFAULT_PROPOSAL_DEPOSIT, "test", "test", None, None, 0).unwrap();
    let (s1, s2, s3) = (9000000000u128, 1000000000u128, 10000000000u128);
    gov.stake(TEST_VOTER, s1).unwrap();
    gov.stake(TEST_VOTER_2, s2).unwrap();
    gov.stake(TEST_VOTER_3, s3).unwrap();
    let supply = s1 + s2 + s3 + DEFAULT_PROPOSAL_DEPOSIT;
    gov.vote(TEST_VOTER, 1, VoteOption::Abstain, s1, 0, supply).unwrap();
    gov.vote(TEST_VOTER_2, 1, VoteOption::Yes, s2, 0, supply).unwrap();
    // abstain votes count toward the quorum: 10G of 30G voted
    let (outcome, _) = gov.end(1, DEFAULT_VOTING_PERIOD, supply).unwrap();
    assert_eq!(outcome, PollOutcome::Passed);
}

#[test]
fn snapshot_poll() {
    let mut gov = Gov::new();
    gov.create(DEFAULT_PROPOSAL_DEPOSIT, "test", "test", None, None, 0).unwrap();
    let poll = gov.polls[&1].clone();
    // too early
    assert_eq!(gov::snapshot_poll(&gov.cfg, poll.clone(), 0, 1000).unwrap_err(), GovError::CannotSnapshot);
    // within the snapshot period
    let at = poll.end_time - DEFAULT_SNAPSHOT_PERIOD;
    let (snapped, supply) = gov::snapshot_poll(&gov.cfg, poll, at, 1000).unwrap();
    assert_eq!(supply, 1000);
    assert_eq!(snapped.supply_snapshot, Some(1000));
    assert_eq!(gov::snapshot_poll(&gov.cfg, snapped, at + 1, 2000).unwrap_err(), GovError::SnapshotAlreadyTaken);
}

#[test]
fn happy_days_cast_vote_with_snapshot() {
    let mut gov = Gov::new();
    gov.create(DEFAULT_PROPOSAL_DEPOSIT, "test", "test", None, None, 0).unwrap();
    gov.stake(TEST_VOTER, 11).unwrap();
    gov.stake(TEST_VOTER_2, 11).unwrap();
    // a vote before the snapshot period takes no snapshot
    gov.vote(TEST_VOTER, 1, VoteOption::Yes, 10, 0, 22 + DEFAULT_PROPOSAL_DEPOSIT).unwrap();
    assert_eq!(gov.polls[&1].supply_snapshot, None);
    // a vote within it takes one
    let at = DEFAULT_VOTING_PERIOD - DEFAULT_SNAPSHOT_PERIOD + 1;
    gov.vote(TEST_VOTER_2, 1, VoteOption::Yes, 10, at, 7777).unwrap();
    assert_eq!(gov.polls[&1].supply_snapshot, Some(7777));
}

#[test]
fn fails_end_poll_quorum_inflation_without_snapshot_poll() {
    let mut gov = Gov::new();
    gov.create(DEFAULT_PROPOSAL_DEPOSIT, "test", "test", None, None, 0).unwrap();
    let stake = 10000000000u128;
    gov.stake(TEST_VOTER, stake).unwrap();
    gov.vote(TEST_VOTER, 1, VoteOption::Yes, stake, 0, stake + DEFAULT_PROPOSAL_DEPOSIT).unwrap();
    // the supply grows a lot before the end: without a snapshot the quorum is measured against it
    let (outcome, _) = gov.end(1, DEFAULT_VOTING_PERIOD, stake * 10 + DEFAULT_PROPOSAL_DEPOSIT).unwrap();
    assert_eq!(outcome, PollOutcome::QuorumNotReached);
}

#[test]
fn happy_days_end_poll_with_controlled_quorum() {
    let mut gov = Gov::new();
    gov.create(DEFAULT_PROPOSAL_DEPOSIT, "test", "test", None, None, 0).unwrap();
    let stake = 10000000000u128;
    gov.stake(TEST_VOTER, stake).unwrap();
    let supply = stake + DEFAULT_PROPOSAL_DEPOSIT;
    let (snapped, _) = gov::snapshot_poll(&gov.cfg, gov.polls[&1].clone(), DEFAULT_VOTING_PERIOD - 5, supply).unwrap();
    gov.polls.insert(1, snapped);
    gov.vote(TEST_VOTER, 1, VoteOption::Yes, stake, DEFAULT_VOTING_PERIOD - 5, supply).unwrap();
    // the snapshot, not the inflated supply, measures the quorum
    let (outcome, _) = gov.end(1, DEFAULT_VOTING_PERIOD, stake * 10).unwrap();
    assert_eq!(outcome, PollOutcome::Passed);
    assert_eq!(gov.polls[&1].supply_snapshot, Some(supply));
}

#[test]
fn mint_xprism() {
    let gov = Gov::new();
    let none = PendingWithdraw { xprism: 0, prism: 0 };
    // start with 0 xprism supply
    assert_eq!(
        check_cw20_hook(&gov.cfg, &PRISM_TOKEN.to_string(), Some(HookKind::MintXprism)),
        Ok(HookKind::MintXprism)
    );
    assert_eq!(
        check_cw20_hook(&gov.cfg, &"test0000".to_string(), Some(HookKind::MintXprism)),
        Err(GovError::Unauthorized)
    );
    assert_eq!(
        check_cw20_hook(&gov.cfg, &VOTING_TOKEN.to_string(), Some(HookKind::MintXprism)),
        Err(GovError::InvalidHook)
    );
    let msg = gov::mint_xprism(&gov.cfg, TEST_VOTER.to_string(), 1000000, 1000000, 0, none).unwrap();
    assert_eq!(msg, Action::MintXprism { recipient: TEST_VOTER.to_string(), amount: 1000000 });

    // supply of xprism is 1000000: first deposit + 100 reward + second deposit
    let msg = gov::mint_xprism(&gov.cfg, TEST_VOTER.to_string(), 1000000, 1000000 + 100 + 1000000, 1000000, none).unwrap();
    assert_eq!(msg, Action::MintXprism { recipient: TEST_VOTER.to_string(), amount: 999900 });
}

#[test]
fn redeem_xprism() {
    let gov = Gov::new();
    let now = mock_env().block.time.nanos();
    let none = PendingWithdraw { xprism: 0, prism: 0 };
    assert_eq!(
        check_cw20_hook(&gov.cfg, &PRISM_TOKEN.to_string(), Some(HookKind::RedeemXprism)),
        Err(GovError::InvalidHook)
    );
    // 1:1 exchange rate
    let (order, pending) = gov::redeem_xprism(&gov.cfg, &vec![], 500000, now, 1000000, 1000000, none).unwrap();
    assert_eq!(order.1, 500000);
    assert_eq!(order.2, 500000);

    // change exchange rate: 1000000 more PRISM
    let (rate, es, ep) = query_xprism_state(2000000, 1000000, pending).unwrap();
    assert_eq!(rate, Decimal::from_ratio(500000u128 + 1000000u128, 500000u128).atomics().u128());
    assert_eq!((es, ep), (500000, 1500000));
    assert_eq!(pending, PendingWithdraw { xprism: 500000, prism: 500000 });

    // only one per block
    let orders = vec![order];
    assert_eq!(
        gov::redeem_xprism(&gov.cfg, &orders, 500000, now, 2000000, 1000000, pending).unwrap_err(),
        GovError::OneRedeemPerBlock
    );
    // a second later
    let (order2, _) = gov::redeem_xprism(&gov.cfg, &orders, 500000, now + 1_000_000_000, 2000000, 1000000, pending).unwrap();
    assert_eq!(order2.2, 1500000);
}

#[test]
fn query_prism_withdraw_orders() {
    let gov = Gov::new();
    let env = mock_env();
    let none = PendingWithdraw { xprism: 0, prism: 0 };
    let t0 = env.block.time;
    let (o1, p) = gov::redeem_xprism(&gov.cfg, &vec![], 100000, t0.nanos(), 1000000000000, 1000000000000, none).unwrap();
    let (o2, p) = gov::redeem_xprism(&gov.cfg, &vec![o1], 200000, t0.plus_seconds(50).nanos(), 1000000000000, 1000000000000, p).unwrap();
    let (o3, _) = gov::redeem_xprism(&gov.cfg, &vec![o1, o2], 300000, t0.plus_seconds(100).nanos(), 1000000000000, 1000000000000, p).unwrap();
    let first_end_time = t0.plus_seconds(DEFAULT_REDEMPTION_TIME).seconds();
    let second_end_time = t0.plus_seconds(50 + DEFAULT_REDEMPTION_TIME).seconds();
    let third_end_time = t0.plus_seconds(100 + DEFAULT_REDEMPTION_TIME).seconds();
    assert_eq!((o1.0, o2.0, o3.0), (first_end_time, second_end_time, third_end_time));
    let orders = vec![o1, o2, o3];

    let (claimable, page) = gov::query_prism_withdraw_orders(&orders, t0.seconds(), None, None, false).unwrap();
    assert_eq!(claimable, 0);
    assert_eq!(page, vec![(first_end_time, 100000), (second_end_time, 200000), (third_end_time, 300000)]);

    let (claimable, page) = gov::query_prism_withdraw_orders(&orders, t0.seconds(), Some(second_end_time), Some(1), true).unwrap();
    assert_eq!(claimable, 0);
    assert_eq!(page, vec![(first_end_time, 100000)]);

    let (claimable, page) = gov::query_prism_withdraw_orders(&orders, second_end_time + 1, None, None, false).unwrap();
    assert_eq!(claimable, 300000);
    assert_eq!(page.len(), 3);
}

#[test]
fn claim_redeemed_xprism() {
    let gov = Gov::new();
    let t0 = mock_env().block.time;
    let none = PendingWithdraw { xprism: 0, prism: 0 };
    let bal = 1000000000000u128;
    let (o1, p) = gov::redeem_xprism(&gov.cfg, &vec![], 100000, t0.nanos(), bal, bal, none).unwrap();
    let (o2, p) = gov::redeem_xprism(&gov.cfg, &vec![o1], 200000, t0.plus_seconds(50).nanos(), bal, bal, p).unwrap();
    let (o3, p) = gov::redeem_xprism(&gov.cfg, &vec![o1, o2], 300000, t0.plus_seconds(100).nanos(), bal, bal, p).unwrap();
    let orders = vec![o1, o2, o3];

    assert_eq!(
        claim_redeemed_prism(&gov.cfg, TEST_VOTER.to_string(), &orders, t0.seconds(), p).unwrap_err(),
        GovError::NothingToClaim
    );

    let (n, msgs, p) = claim_redeemed_prism(&gov.cfg, TEST_VOTER.to_string(), &orders, o1.0 + 1, p).unwrap();
    assert_eq!(n, 1);
    assert_eq!(
        msgs,
        vec![
            Action::BurnXprism { amount: 100000 },
            Action::Transfer { token: PRISM_TOKEN.to_string(), recipient: TEST_VOTER.to_string(), amount: 100000 },
        ]
    );
    let rest = orders[n..].to_vec();
    let (claimable, page) = gov::query_prism_withdraw_orders(&rest, t0.seconds(), None, None, false).unwrap();
    assert_eq!(claimable, 0);
    assert_eq!(page, vec![(o2.0, 200000), (o3.0, 300000)]);

    let (n, msgs, p) = claim_redeemed_prism(&gov.cfg, TEST_VOTER.to_string(), &rest, o3.0 + 1, p).unwrap();
    assert_eq!(n, 2);
    assert_eq!(
        msgs,
        vec![
            Action::BurnXprism { amount: 500000 },
            Action::Transfer { token: PRISM_TOKEN.to_string(), recipient: TEST_VOTER.to_string(), amount: 500000 },
        ]
    );
    assert_eq!(p, none);
}

#[test]
fn test_exchange_rate_after_claiming() {
    let gov = Gov::new();
    let t0 = mock_env().block.time;
    let none = PendingWithdraw { xprism: 0, prism: 0 };
    let one = Decimal::one().atomics().u128();
    assert_eq!(query_xprism_state(100000, 100000, none).unwrap(), (one, 100000, 100000));

    // redeem 25K
    let (order, p) = gov::redeem_xprism(&gov.cfg, &vec![], 25000, t0.nanos(), 100000, 100000, none).unwrap();
    assert_eq!(order.2, 25000);
    assert_eq!(query_xprism_state(100000, 100000, p).unwrap(), (one, 75000, 75000));
    assert_eq!(p, PendingWithdraw { xprism: 25000, prism: 25000 });

    // add 10K rewards: (110K - 25K) / (100K - 25K)
    let rate = Decimal::from_ratio(85000u128, 75000u128).atomics().u128();
    assert_eq!(query_xprism_state(110000, 100000, p).unwrap(), (rate, 75000, 85000));

    // claim after the redemption time
    let claimable_time = t0.plus_seconds(DEFAULT_REDEMPTION_TIME).seconds();
    let (claimable, page) = gov::query_prism_withdraw_orders(&vec![order], claimable_time + 1, None, None, false).unwrap();
    assert_eq!(claimable, 25000);
    assert_eq!(page, vec![(claimable_time, 25000)]);
    let (_, msgs, p) = claim_redeemed_prism(&gov.cfg, TEST_VOTER.to_string(), &vec![order], claimable_time + 1, p).unwrap();
    assert_eq!(
        msgs,
        vec![
            Action::BurnXprism { amount: 25000 },
            Action::Transfer { token: PRISM_TOKEN.to_string(), recipient: TEST_VOTER.to_string(), amount: 25000 },
        ]
    );
    // the claim processed: the rate and effective values stay, pending goes
    assert_eq!(query_xprism_state(110000 - 25000, 100000 - 25000, p).unwrap(), (rate, 75000, 85000));
    assert_eq!(p, none);
}

#[test]
fn amount_uint128_check() {
    // mint uses Uint128::multiply_ratio's floor
    let gov = Gov::new();
    let none = PendingWithdraw { xprism: 0, prism: 0 };
    let msg = gov::mint_xprism(&gov.cfg, "a".to_string(), 7, 20, 10, none).unwrap();
    assert_eq!(msg, Action::MintXprism { recipient: "a".to_string(), amount: Uint128::from(7u128).multiply_ratio(10u128, 13u128).u128() });
}
