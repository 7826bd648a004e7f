use cosmwasm_std::testing::{mock_env, MOCK_CONTRACT_ADDR};
use cosmwasm_std::{Decimal, Uint128};
use prism_contracts::prism_fair_launch::{
    admin_withdraw, deposit, instantiate, post_initialize, query_deposit_info, withdraw,
    withdraw_tokens, Coin, Config, DepositResponse, FairLaunchError, LaunchAction, LaunchConfig,
};
use std::collections::{BTreeMap, BTreeSet};

const TAX_RATE_PERCENT: u128 = 5;
const TAX_CAP: u128 = 10;

/// What a bank send of `amount` delivers after the chain's tax, at the rate
/// and cap these scenarios use (5%, capped at 10).
fn after_tax(amount: u128) -> u128 {
    let tax = amount - amount * 100 / (100 + TAX_RATE_PERCENT);
    amount - tax.min(TAX_CAP)
}

fn now() -> u64 {
    mock_env().block.time.seconds()
}

fn fee(percent: u64) -> u128 {
    Decimal::percent(percent).atomics().u128()
}

fn uusd(amount: u128) -> Coin {
    Coin { denom: "uusd".to_string(), amount }
}

fn sent_native(action: &LaunchAction) -> (String, u128) {
    match action {
        LaunchAction::SendNative { recipient, amount, .. } => (recipient.clone(), *amount),
        other => panic!("Unexpected message: {:?}", other),
    }
}

/// The contract's records: the configuration, the deposits, the total, who
/// withdrew in phase 2 and who claimed.
struct Launch {
    cfg: Config,
    deposits: BTreeMap<String, u128>,
    total: u128,
    withdrew_phase2: BTreeSet<String>,
    claimed: BTreeSet<String>,
}

impl Launch {
    fn init(withdraw_threshold: u128, withdraw_fee: u128) -> Launch {
        let cfg = instantiate(
            "owner0001".to_string(),
            "prism0001".to_string(),
            "uusd".to_string(),
            withdraw_threshold,
            withdraw_fee,
        )
        .unwrap();
        Launch { cfg, deposits: BTreeMap::new(), total: 0, withdrew_phase2: BTreeSet::new(), claimed: BTreeSet::new() }
    }

    /// Launches 1_000_000 tokens: phase 1 now, phase 2 from now + 100 for
    /// `phase2_seconds`.
    fn post_init(&mut self, phase2_seconds: u64) {
        let launch_config = LaunchConfig {
            amount: 1_000_000,
            phase1_start: now(),
            phase2_start: now() + 100,
            phase2_end: now() + 100 + phase2_seconds,
        };
        let (cfg, _) = post_initialize(
            self.cfg.clone(),
            "owner0001".to_string(),
            MOCK_CONTRACT_ADDR.to_string(),
            now(),
            launch_config,
        )
        .unwrap();
        self.cfg = cfg;
    }

    fn deposit(&mut self, who: &str, at: u64, funds: Vec<Coin>) -> Result<(), FairLaunchError> {
        let (d, t) = deposit(&self.cfg, at, &funds, self.deposits.get(who).copied(), self.total)?;
        self.deposits.insert(who.to_string(), d);
        self.total = t;
        Ok(())
    }

    fn withdraw(&mut self, who: &str, at: u64, amount: Option<u128>) -> Result<LaunchAction, FairLaunchError> {
        let w = withdraw(
            &self.cfg,
            who.to_string(),
            at,
            self.deposits.get(who).copied(),
            self.total,
            self.withdrew_phase2.contains(who),
            amount,
        )?;
        self.deposits.insert(who.to_string(), w.deposit);
        self.total = w.total_deposit;
        if w.in_phase2 {
            self.withdrew_phase2.insert(who.to_string());
        }
        Ok(w.action)
    }

    fn withdraw_tokens(&mut self, who: &str, at: u64) -> Result<LaunchAction, FairLaunchError> {
        let (_, action) = withdraw_tokens(
            &self.cfg,
            who.to_string(),
            at,
            self.deposits.get(who).copied(),
            self.total,
            self.claimed.contains(who),
        )?;
        self.deposits.insert(who.to_string(), 0);
        self.claimed.insert(who.to_string());
        Ok(action)
    }

    fn query(&self, who: &str, at: u64) -> DepositResponse {
        query_deposit_info(
            &self.cfg,
            at,
            self.deposits.get(who).copied(),
            self.total,
            self.withdrew_phase2.contains(who),
            self.claimed.contains(who),
        )
        .unwrap()
    }
}

fn response(deposit: u128, total_deposit: u128, withdrawable_amount: u128, tokens_to_claim: u128, can_claim: bool) -> DepositResponse {
    DepositResponse { deposit, total_deposit, withdrawable_amount, tokens_to_claim, can_claim }
}

#[test]
fn proper_post_initialize() {
    let cfg = instantiate("owner0001".to_string(), "prism0001".to_string(), "uusd".to_string(), 0, 0).unwrap();
    let mut launch_config = LaunchConfig {
        amount: 1_000_000,
        phase1_start: now(),
        phase2_start: now() + 100,
        phase2_end: now() + 100 + 60 * 60,
    };

    // unauthorized
    let err = post_initialize(cfg.clone(), "".to_string(), MOCK_CONTRACT_ADDR.to_string(), now(), launch_config);
    assert_eq!(err.unwrap_err(), FairLaunchError::Unauthorized);

    // invalid launch config
    launch_config.phase1_start = now() - 100;
    let err = post_initialize(cfg.clone(), "owner0001".to_string(), MOCK_CONTRACT_ADDR.to_string(), now(), launch_config);
    assert_eq!(err.unwrap_err(), FairLaunchError::InvalidLaunchConfig);

    // success
    launch_config.phase1_start = now();
    let (cfg, msg) =
        post_initialize(cfg, "owner0001".to_string(), MOCK_CONTRACT_ADDR.to_string(), now(), launch_config).unwrap();
    assert_eq!(
        msg,
        LaunchAction::TransferFrom {
            token: "prism0001".to_string(),
            owner: "owner0001".to_string(),
            recipient: MOCK_CONTRACT_ADDR.to_string(),
            amount: 1_000_000,
        }
    );

    // only once
    let err = post_initialize(cfg, "owner0001".to_string(), MOCK_CONTRACT_ADDR.to_string(), now(), launch_config);
    assert_eq!(err.unwrap_err(), FairLaunchError::DuplicatePostInit);
}

#[test]
fn proper_deposit() {
    let mut launch = Launch::init(0, 0);
    launch.post_init(60 * 60);

    // error, no coins sent with deposit
    assert_eq!(launch.deposit("addr0001", now(), vec![]).unwrap_err(), FairLaunchError::DepositNotOneCoin);
    // error, zero amount
    assert_eq!(
        launch.deposit("addr0001", now(), vec![uusd(0)]).unwrap_err(),
        FairLaunchError::DepositWrongCoin { base_denom: "uusd".to_string() }
    );
    // error, wrong currency
    assert_eq!(
        launch.deposit("addr0001", now(), vec![Coin { denom: "ukrw".to_string(), amount: 0 }]).unwrap_err(),
        FairLaunchError::DepositWrongCoin { base_denom: "uusd".to_string() }
    );

    // successful deposit
    launch.deposit("addr0001", now(), vec![uusd(1_000)]).unwrap();
    assert_eq!(launch.query("addr0001", now()), response(1_000, 1_000, 1_000, 1_000_000, false));
    assert_eq!(launch.query("addr0002", now()), response(0, 1_000, 0, 0, false));

    // failed deposit, after phase 1
    assert_eq!(
        launch.deposit("addr0001", now() + 150, vec![uusd(1_000)]).unwrap_err(),
        FairLaunchError::DepositPeriodOver
    );
}

#[test]
fn proper_withdraw() {
    let mut launch = Launch::init(0, 0);
    launch.post_init(60 * 60);
    launch.deposit("addr0001", now(), vec![uusd(1_000)]).unwrap();

    // try to withdraw 0, expect error
    assert_eq!(launch.withdraw("addr0001", now(), Some(0)).unwrap_err(), FairLaunchError::WithdrawZero);

    // withdraw 100, we get 95 after the 5% tax
    let (to, amount) = sent_native(&launch.withdraw("addr0001", now(), Some(100)).unwrap());
    assert_eq!((to.as_str(), after_tax(amount)), ("addr0001", 95));
    assert_eq!(launch.query("addr0001", now()), response(900, 900, 900, 1_000_000, false));

    // withdraw the remaining 900, we get 890 (tax cap 10)
    let (_, amount) = sent_native(&launch.withdraw("addr0001", now(), None).unwrap());
    assert_eq!(after_tax(amount), 890);
    assert_eq!(launch.query("addr0001", now()), response(0, 0, 0, 0, false));

    assert_eq!(
        launch.withdraw("addr0001", now(), Some(1_000)).unwrap_err(),
        FairLaunchError::NoFundsToWithdraw
    );

    // deposit again and withdraw 101_000_000
    launch.deposit("addr0001", now(), vec![uusd(200_000_000)]).unwrap();
    let (_, amount) = sent_native(&launch.withdraw("addr0001", now(), Some(101_000_000)).unwrap());
    assert_eq!(after_tax(amount), 100_999_990);

    // after phase 2, withdrawals are over
    let later = now() + 100 + 60 * 60;
    assert_eq!(
        launch.withdraw("addr0001", later, Some(100)).unwrap_err(),
        FairLaunchError::WithdrawPeriodOver
    );
    assert_eq!(launch.query("addr0001", later), response(99_000_000, 99_000_000, 0, 1_000_000, true));
}

#[test]
fn proper_withdraw_phase3() {
    let mut launch = Launch::init(0, 0);
    launch.post_init(24 * 60 * 60);
    for who in ["alice0000", "bob0000", "cindy0000"] {
        launch.deposit(who, now(), vec![uusd(100_000_000)]).unwrap();
    }

    // phase 2 starts
    let mut t = now() + 100;
    assert_eq!(
        launch.query("alice0000", t),
        response(100_000_000, 300_000_000, 100_000_000, 333333, false)
    );
    assert_eq!(
        launch.withdraw("alice0000", t, Some(100_000_001)).unwrap_err(),
        FairLaunchError::WithdrawMoreThanWithdrawable { withdrawable: 100_000_000 }
    );
    let (_, amount) = sent_native(&launch.withdraw("alice0000", t, Some(1_000_000)).unwrap());
    assert_eq!(after_tax(amount), 999_990);
    // only one withdrawal in phase 2
    assert_eq!(
        launch.withdraw("alice0000", t, Some(1_000)).unwrap_err(),
        FairLaunchError::AlreadyWithdrawnInPhase2
    );

    // six hours later 18 of 24 hours are left
    t += 60 * 60 * 6;
    assert_eq!(
        launch.query("bob0000", t),
        response(100_000_000, 299_000_000, 75_000_000, 334448, false)
    );
    let (_, amount) = sent_native(&launch.withdraw("bob0000", t, None).unwrap());
    assert_eq!(after_tax(amount), 74_999_990);
    assert_eq!(launch.query("bob0000", t), response(25_000_000, 224_000_000, 0, 111607, false));

    // the last second of phase 2
    t += 60 * 60 * 17 + 3599;
    assert_eq!(launch.query("cindy0000", t), response(100_000_000, 224_000_000, 0, 446428, false));

    // after phase 2
    t += 1;
    assert_eq!(launch.query("cindy0000", t), response(100_000_000, 224_000_000, 0, 446428, true));
}

#[test]
fn proper_withdraw_tokens1() {
    let mut launch = Launch::init(0, 0);
    launch.post_init(60 * 60);
    launch.deposit("addr0001", now(), vec![uusd(1_000)]).unwrap();
    assert_eq!(
        launch.withdraw_tokens("addr0001", now()).unwrap_err(),
        FairLaunchError::TokensNotYetWithdrawable
    );
    // past phase 2
    assert_eq!(
        launch.withdraw_tokens("addr0001", now() + 100 + 60 * 60).unwrap(),
        LaunchAction::SendToken { token: "prism0001".to_string(), recipient: "addr0001".to_string(), amount: 1_000_000 }
    );
}

#[test]
fn proper_withdraw_tokens2() {
    let mut launch = Launch::init(0, 0);
    launch.post_init(60 * 60);
    launch.deposit("addr0001", now(), vec![uusd(1_000)]).unwrap();
    launch.deposit("addr0002", now(), vec![uusd(5_000)]).unwrap();
    let later = now() + 100 + 60 * 60;

    // addr0001 gets 1M * 1/6
    assert_eq!(
        launch.withdraw_tokens("addr0001", later).unwrap(),
        LaunchAction::SendToken {
            token: "prism0001".to_string(),
            recipient: "addr0001".to_string(),
            amount: Uint128::from(1_000_000u64).multiply_ratio(1u128, 6u128).u128(),
        }
    );
    // a second claim is refused
    assert_eq!(launch.withdraw_tokens("addr0001", later).unwrap_err(), FairLaunchError::TokensAlreadyClaimed);
    // addr0002 gets 1M * 5/6
    assert_eq!(
        launch.withdraw_tokens("addr0002", later).unwrap(),
        LaunchAction::SendToken {
            token: "prism0001".to_string(),
            recipient: "addr0002".to_string(),
            amount: Uint128::from(1_000_000u64).multiply_ratio(5u128, 6u128).u128(),
        }
    );
}

#[test]
fn withdraw_fee_above_one_is_refused() {
    let err = instantiate("o".to_string(), "t".to_string(), "uusd".to_string(), 0, fee(101)).unwrap_err();
    assert_eq!(err, FairLaunchError::InvalidFee);
}

#[test]
fn phase_two_withdrawals_above_threshold_pay_the_fee() {
    let mut launch = Launch::init(100_000_000, fee(10));
    launch.post_init(24 * 60 * 60);
    launch.deposit("a", now(), vec![uusd(200_000_000)]).unwrap();
    launch.deposit("b", now(), vec![uusd(200_000_000)]).unwrap();

    // before phase 2: no fee, whatever the amount
    let w = withdraw(&launch.cfg, "a".to_string(), now(), Some(200_000_000), 400_000_000, false, Some(150_000_000)).unwrap();
    assert_eq!((w.fee, w.sent, w.in_phase2), (0, 150_000_000, false));

    // in phase 2, below the threshold: no fee
    let phase2 = now() + 150;
    let w = withdraw(&launch.cfg, "a".to_string(), phase2, Some(200_000_000), 400_000_000, false, Some(100_000_000)).unwrap();
    assert_eq!((w.fee, w.deposit, w.total_deposit, w.in_phase2), (0, 100_000_000, 300_000_000, true));

    // in phase 2, above the threshold: 10% fee
    let w = withdraw(&launch.cfg, "b".to_string(), phase2, Some(200_000_000), 400_000_000, false, Some(101_000_000)).unwrap();
    assert_eq!((w.fee, w.sent, w.deposit), (10_100_000, 90_900_000, 99_000_000));
    assert_eq!(
        w.action,
        LaunchAction::SendNative { denom: "uusd".to_string(), recipient: "b".to_string(), amount: 90_900_000 }
    );
}

#[test]
fn owner_takes_the_base_coin_after_phase_two() {
    let mut launch = Launch::init(0, 0);
    launch.post_init(60 * 60);
    let end = now() + 100 + 60 * 60;
    assert_eq!(admin_withdraw(&launch.cfg, "someone".to_string(), end, 500).unwrap_err(), FairLaunchError::Unauthorized);
    assert_eq!(
        admin_withdraw(&launch.cfg, "owner0001".to_string(), end - 1, 500).unwrap_err(),
        FairLaunchError::AdminWithdrawTooEarly
    );
    assert_eq!(
        admin_withdraw(&launch.cfg, "owner0001".to_string(), end, 500).unwrap(),
        LaunchAction::SendNative { denom: "uusd".to_string(), recipient: "owner0001".to_string(), amount: 500 }
    );
}

#[test]
fn claims_never_exceed_the_launch() {
    let mut launch = Launch::init(0, 0);
    launch.post_init(60 * 60);
    let end = now() + 100 + 60 * 60;
    let deposits = [1u128, 2, 3, 7, 11, 13];
    let total: u128 = deposits.iter().sum();
    let mut claimed = 0u128;
    for d in deposits {
        let (amount, _) = withdraw_tokens(&launch.cfg, "x".to_string(), end, Some(d), total, false).unwrap();
        assert_eq!(amount, Uint128::from(1_000_000u128).multiply_ratio(d, total).u128());
        claimed += amount;
    }
    assert!(claimed <= 1_000_000);
    assert_eq!(
        withdraw_tokens(&launch.cfg, "x".to_string(), end, None, total, false).unwrap_err(),
        FairLaunchError::DepositNotFound
    );
}
