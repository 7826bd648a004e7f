use cosmwasm_std::{Decimal, Uint128};
use prism_contracts::launch_pool as lp;
use cosmwasm_std::testing::{mock_env, MOCK_CONTRACT_ADDR};
use integer_sqrt::IntegerSquareRoot;
use prism_contracts::launch_pool::{
    admin_send_withdrawn_rewards, bond_with_boost_contract_hook,
    receive_bond,
};
use prism_contracts::launch_pool::{
    instantiate, query_distribution_status, query_reward_info, query_vesting_status,
    update_config, update_vest, Action, AssetInfo, ClaimType, Config, DistributionStatus,
    ContractError, Pools, RewardInfo, Schedule, StakerUpdate, StakerVesting, WithdrawOutcome,
    TIME_UNIT,
};
use std::collections::BTreeMap;

const ONE: u128 = 1_000_000_000_000_000_000;
const DEFAULT_VESTING_PERIOD: u64 = 30 * TIME_UNIT;

fn dec(n: u128, d: u128) -> u128 {
    Decimal::from_ratio(n, d).atomics().u128()
}

fn compute_vested_time(withdraw_time: u64, vesting_period: u64) -> u64 {
    let mut vested_time = withdraw_time + vesting_period;
    vested_time -= vested_time % TIME_UNIT;
    vested_time
}

struct Sim {
    cfg: Config,
    pools: Pools,
    stakers: BTreeMap<String, StakerVesting>,
    /// The boost (AMPS) of each staker as the boost contract reports it.
    boosts: BTreeMap<String, u128>,
}

fn new_staker() -> StakerVesting {
    StakerVesting { bond_amount: None, reward_info: None, pending_withdraw: None, vests: vec![] }
}

impl Sim {
    fn new(schedule: Schedule, ratio: u128, vesting_period: u64, min_bond: u128) -> Sim {
        let cfg = instantiate(
            "owner0000".to_string(),
            "op0000".to_string(),
            "prism0000".to_string(),
            "xprism0000".to_string(),
            "gov0000".to_string(),
            "ylunastaking0000".to_string(),
            "ylunatoken0000".to_string(),
            vesting_period,
            "boost0000".to_string(),
            schedule,
            ratio,
            min_bond,
        )
        .unwrap();
        Sim {
            cfg,
            pools: Pools { base: DistributionStatus::new(), boost: DistributionStatus::new() },
            stakers: BTreeMap::new(),
            boosts: BTreeMap::new(),
        }
    }

    fn boost_of(&self, who: &str) -> u128 {
        self.boosts.get(who).copied().unwrap_or(0)
    }

    fn staker(&self, who: &str) -> StakerVesting {
        self.stakers.get(who).cloned().unwrap_or_else(new_staker)
    }

    fn apply(&mut self, who: &str, u: StakerUpdate) {
        self.pools = u.pools;
        let mut s = self.staker(who);
        s.bond_amount = u.bond_amount;
        s.reward_info = u.reward_info;
        self.stakers.insert(who.to_string(), s);
    }

    fn apply_withdraw(&mut self, who: &str, o: WithdrawOutcome) {
        let mut s = self.staker(who);
        s.reward_info = Some(o.reward_info);
        s.pending_withdraw = Some(o.pending_withdraw);
        s.vests = s.vests[o.released..].to_vec();
        if let Some((t, a)) = o.new_vest {
            s.vests.retain(|(x, _)| *x != t);
            s.vests.push((t, a));
            s.vests.sort();
        }
        self.stakers.insert(who.to_string(), s);
    }

    fn bond(&mut self, now: u64, who: &str, amount: u128) -> Result<Vec<Action>, ContractError> {
        let s = self.staker(who);
        let boost = self.boost_of(who);
        let (u, actions) =
            lp::bond(&self.cfg, &self.pools, s.bond_amount, s.reward_info, now, amount, boost)?;
        self.apply(who, u);
        Ok(actions)
    }

    fn unbond(
        &mut self,
        now: u64,
        who: &str,
        amount: Option<u128>,
    ) -> Result<Vec<Action>, ContractError> {
        let s = self.staker(who);
        let boost = self.boost_of(who);
        let (u, actions) = lp::unbond(
            &self.cfg,
            &self.pools,
            s.bond_amount,
            s.reward_info,
            now,
            who.to_string(),
            amount,
            boost,
        )?;
        self.apply(who, u);
        Ok(actions)
    }

    fn withdraw(&mut self, now: u64, who: &str) {
        let s = self.staker(who);
        let (p, o) = lp::withdraw_rewards(&self.cfg, &self.pools, &s, now).unwrap();
        self.pools = p;
        self.apply_withdraw(who, o);
    }

    fn activate(&mut self, now: u64, who: &str) -> Result<(u128, u128), ContractError> {
        let s = self.staker(who);
        let boost = self.boost_of(who);
        let (u, bonded, amps) =
            lp::activate_boost(&self.cfg, &self.pools, s.bond_amount, s.reward_info, now, boost)?;
        self.apply(who, u);
        Ok((bonded, amps))
    }

    fn privileged_refresh(
        &mut self,
        now: u64,
        sender: &str,
        who: &str,
    ) -> Result<(u128, u128), ContractError> {
        let s = self.staker(who);
        let boost = self.boost_of(who);
        let (u, bonded, amps) = lp::privileged_refresh_boost(
            &self.cfg,
            &self.pools,
            &sender.to_string(),
            s.bond_amount,
            s.reward_info,
            now,
            boost,
        )?;
        self.apply(who, u);
        Ok((bonded, amps))
    }

    fn claim(
        &mut self,
        now: u64,
        who: &str,
        claim_type: ClaimType,
        xprism_balance: u128,
    ) -> Result<(u128, Vec<Action>), ContractError> {
        let mut s = self.staker(who);
        let (released, amount, actions) = lp::claim_withdrawn_rewards(
            &self.cfg,
            MOCK_CONTRACT_ADDR.to_string(),
            who.to_string(),
            now,
            s.pending_withdraw,
            &s.vests,
            claim_type,
            xprism_balance,
        )?;
        s.vests = s.vests[released..].to_vec();
        s.pending_withdraw = Some(0);
        self.stakers.insert(who.to_string(), s);
        Ok((amount, actions))
    }

    /// One batch of the operator's bulk withdrawal over the stakers with a
    /// reward record, in address order. Returns the last address processed.
    fn bulk_after(
        &mut self,
        now: u64,
        sender: &str,
        start_after: Option<&str>,
        limit: usize,
    ) -> Result<String, ContractError> {
        let addresses: Vec<String> = self
            .stakers
            .iter()
            .filter(|(_, s)| s.reward_info.is_some())
            .map(|(k, _)| k.clone())
            .collect();
        let records: Vec<StakerVesting> = addresses.iter().map(|n| self.staker(n)).collect();
        let (p, done, outs, last) = lp::withdraw_rewards_bulk(
            &self.cfg,
            &self.pools,
            &sender.to_string(),
            &addresses,
            &records,
            limit as u64,
            &start_after.map(|a| a.to_string()),
            now,
        )?;
        self.pools = p;
        for (i, o) in done.iter().zip(outs) {
            self.apply_withdraw(&addresses[*i], o);
        }
        Ok(last)
    }

    fn bulk(&mut self, now: u64, limit: usize) {
        self.bulk_after(now, "op0000", None, limit).unwrap();
    }

    fn base_status(&self, now: u64) -> DistributionStatus {
        query_distribution_status(&self.cfg, &self.pools, now).unwrap().base
    }

    fn reward_info(&self, who: &str) -> RewardInfo {
        let s = self.staker(who);
        query_reward_info(&self.pools, s.bond_amount, s.reward_info).unwrap().1
    }

    fn bonded(&self, who: &str) -> u128 {
        let s = self.staker(who);
        query_reward_info(&self.pools, s.bond_amount, s.reward_info).unwrap().0
    }

    fn vesting(&self, now: u64, who: &str) -> (Vec<(u64, u128)>, u128) {
        let s = self.staker(who);
        query_vesting_status(now, s.pending_withdraw, &s.vests).unwrap()
    }
}

fn status(total_distributed: u128, total_weight: u128, pending: u128, index: u128) -> DistributionStatus {
    DistributionStatus {
        total_distributed,
        total_weight,
        pending_reward: pending,
        reward_index: index,
    }
}

fn base_info(index: u128, pending: u128) -> RewardInfo {
    RewardInfo { base_index: index, boost_index: 0, active_boost: 0, boost_weight: 0, pending_reward: pending }
}

#[test]
fn tests_proper_initialization() {
    let bad = instantiate(
        "owner0000".to_string(),
        "op0000".to_string(),
        "prism0000".to_string(),
        "xprism0000".to_string(),
        "gov0000".to_string(),
        "ylunastaking0000".to_string(),
        "ylunatoken0000".to_string(),
        DEFAULT_VESTING_PERIOD,
        "boost0000".to_string(),
        Schedule { start: 100, end: 99, amount: 1_000_000 },
        ONE / 2,
        1_000,
    );
    assert_eq!(bad, Err(ContractError::InvalidDistributionSchedule));
    let sim = Sim::new(Schedule { start: 100, end: 200, amount: 2_000_000 }, ONE / 2, DEFAULT_VESTING_PERIOD, 1_000);
    assert_eq!(sim.cfg.distribution_schedule, Schedule { start: 100, end: 200, amount: 2_000_000 });
    assert_eq!(sim.cfg.min_bond_amount, 1_000);
    assert_eq!(sim.cfg.vesting_period, DEFAULT_VESTING_PERIOD);
}

#[test]
fn withdraw_rewards() {
    // base and boost pools of 1_000_000 each between 100 and 200
    let mut sim = Sim::new(Schedule { start: 100, end: 200, amount: 2_000_000 }, ONE / 2, DEFAULT_VESTING_PERIOD, 0);
    sim.bond(90, "alice0000", 100).unwrap();
    sim.withdraw(150, "alice0000");
    let vested_time = compute_vested_time(150, DEFAULT_VESTING_PERIOD);
    assert_eq!(sim.vesting(150, "alice0000"), (vec![(vested_time, 500_000)], 0));
    assert_eq!(sim.base_status(150), status(500_000, 100, 0, dec(500_000, 100)));

    sim.withdraw(600, "alice0000");
    let vested_time = compute_vested_time(600, DEFAULT_VESTING_PERIOD);
    assert_eq!(sim.vesting(600, "alice0000"), (vec![(vested_time, 1_000_000)], 0));
    assert_eq!(sim.base_status(600), status(1_000_000, 100, 0, dec(1_000_000, 100)));
}

#[test]
fn unbond() {
    // 5000 base rewards during a 30-second event, nothing for the boost pool
    let mut sim = Sim::new(Schedule { start: 30, end: 60, amount: 5_000 }, ONE, DEFAULT_VESTING_PERIOD, 99);
    sim.bond(30, "addr0000", 100).unwrap();
    assert_eq!(sim.unbond(30, "addr0001", Some(101)), Err(ContractError::NoTokensBonded));
    assert_eq!(sim.unbond(30, "addr0000", Some(101)), Err(ContractError::UnbondTooLarge));
    // successful unbond of 25 at the end of the event
    let actions = sim.unbond(60, "addr0000", Some(25)).unwrap();
    assert_eq!(
        actions,
        vec![
            Action::UnstakeYluna { amount: 25 },
            Action::Transfer {
                asset: AssetInfo::Cw20("ylunatoken0000".to_string()),
                recipient: "addr0000".to_string(),
                amount: 25
            },
        ]
    );
    assert_eq!(sim.base_status(60), status(5_000, 75, 0, dec(5_000, 100)));
    assert!(sim.staker("addr0000").reward_info.is_some());
    assert!(sim.staker("addr0000").bond_amount.is_some());
    // unbond the remaining 75
    let actions = sim.unbond(60, "addr0000", None).unwrap();
    assert_eq!(
        actions,
        vec![
            Action::UnstakeYluna { amount: 75 },
            Action::Transfer {
                asset: AssetInfo::Cw20("ylunatoken0000".to_string()),
                recipient: "addr0000".to_string(),
                amount: 75
            },
        ]
    );
    assert_eq!(sim.vesting(60, "addr0000"), (vec![], 0));
    assert_eq!(sim.base_status(60), status(5_000, 0, 0, dec(5_000, 100)));
    // everything is unbonded, but the rewards are still pending
    assert_eq!(sim.bonded("addr0000"), 0);
    assert_eq!(sim.reward_info("addr0000"), base_info(dec(5_000, 100), 5_000));
    // both records stay
    assert!(sim.staker("addr0000").reward_info.is_some());
    assert!(sim.staker("addr0000").bond_amount.is_some());
}

#[test]
fn bond_below_minimum() {
    let mut sim = Sim::new(Schedule { start: 100, end: 200, amount: 1_000_000 }, ONE, DEFAULT_VESTING_PERIOD, 100);
    assert_eq!(sim.bond(90, "lp00001", 99), Err(ContractError::BondTooLow { min_bond_amount: 100 }));
    assert_eq!(sim.bond(90, "lp00001", 100).unwrap(), vec![Action::StakeYluna { amount: 100 }]);
}

#[test]
fn rewards_index_from_hell() {
    let mut sim = Sim::new(Schedule { start: 100, end: 200, amount: 100_000 }, ONE, 21 * TIME_UNIT, 1);
    assert_eq!(sim.base_status(110), status(10_000, 0, 10_000, 0));

    sim.bond(110, "bob", 2).unwrap();
    assert_eq!(sim.base_status(110), status(10_000, 2, 0, dec(10_000, 2)));
    assert_eq!(sim.reward_info("bob"), base_info(0, 0));
    sim.bond(110, "alice", 3).unwrap();
    assert_eq!(sim.base_status(110), status(10_000, 5, 0, dec(10_000, 2)));
    assert_eq!(sim.reward_info("alice"), base_info(dec(10_000, 2), 0));

    sim.unbond(120, "alice", Some(1)).unwrap();
    let i120 = dec(10_000, 2) + dec(10_000, 5);
    assert_eq!(sim.base_status(120), status(20_000, 4, 0, i120));
    assert_eq!(sim.reward_info("alice"), base_info(i120, 10_000 / 5 * 3));

    sim.withdraw(130, "bob");
    let i130 = i120 + dec(10_000, 4);
    assert_eq!(sim.base_status(130), status(30_000, 4, 0, i130));
    assert_eq!(sim.reward_info("bob"), base_info(i130, 0));
    assert_eq!(sim.vesting(130, "bob").0, vec![(1814400, 10_000 + 10_000 / 5 * 2 + 10_000 / 4 * 2)]);

    sim.bond(140, "carol", 4).unwrap();
    let i140 = i130 + dec(10_000, 4);
    assert_eq!(sim.base_status(140), status(40_000, 8, 0, i140));
    assert_eq!(sim.reward_info("carol"), base_info(i140, 0));

    sim.bulk(150, 1);
    let i150 = i140 + dec(10_000, 8);
    assert_eq!(sim.base_status(150), status(50_000, 8, 0, i150));
    assert_eq!(sim.reward_info("alice"), base_info(i150, 0));
    assert_eq!(
        sim.vesting(150, "alice").0,
        vec![(1814400, 10_000 / 5 * 3 + 10_000 / 4 * 2 + 10_000 / 4 * 2 + 10_000 / 8 * 2)]
    );

    sim.bond(160, "carol", 42).unwrap();
    let i160 = i150 + dec(10_000, 8);
    assert_eq!(sim.base_status(160), status(60_000, 50, 0, i160));
    assert_eq!(sim.reward_info("carol"), base_info(i160, 10_000 / 8 * 4 + 10_000 / 8 * 4));

    sim.unbond(210, "carol", Some(46)).unwrap();
    let i210 = i160 + dec(40_000, 50);
    assert_eq!(sim.base_status(210), status(100_000, 4, 0, i210));
    assert_eq!(
        sim.reward_info("carol"),
        base_info(i210, 10_000 / 8 * 4 + 10_000 / 8 * 4 + 40_000 / 50 * 46)
    );

    sim.bulk(300, 100);
    assert_eq!(sim.base_status(300), status(100_000, 4, 0, i210));
    for person in ["alice", "bob", "carol"] {
        assert_eq!(sim.reward_info(person), base_info(i210, 0));
    }
    for (person, will_vest) in [
        ("alice", 10_000 / 5 * 3 + 10_000 / 4 * 2 + 10_000 / 4 * 2 + 10_000 / 8 * 2 + 10_000 / 8 * 2 + 40_000 / 50 * 2),
        ("bob", 10_000 + 10_000 / 5 * 2 + 10_000 / 4 * 2 + 10_000 / 4 * 2 + 10_000 / 8 * 2 + 10_000 / 8 * 2 + 40_000 / 50 * 2),
        ("carol", 10_000 / 8 * 4 + 10_000 / 8 * 4 + 40_000 / 50 * 46),
    ] {
        assert_eq!(sim.vesting(300, person), (vec![(1814400, will_vest)], 0));
    }
}

#[test]
fn claim_withdrawn_rewards() {
    let mut sim = Sim::new(Schedule { start: 100, end: 200, amount: 2_000_000 }, ONE / 2, DEFAULT_VESTING_PERIOD, 0);
    sim.bond(90, "alice0000", 100).unwrap();
    sim.withdraw(150, "alice0000");
    let s = sim.staker("alice0000");
    let err = lp::claim_withdrawn_rewards(
        &sim.cfg,
        "cosmos2contract".to_string(),
        "alice0000".to_string(),
        150,
        s.pending_withdraw,
        &s.vests,
        ClaimType::Prism,
        0,
    )
    .unwrap_err();
    assert_eq!(err, ContractError::NoClaimableRewards);
    let vested_time = compute_vested_time(150, DEFAULT_VESTING_PERIOD);
    let (k, amount, actions) = lp::claim_withdrawn_rewards(
        &sim.cfg,
        "cosmos2contract".to_string(),
        "alice0000".to_string(),
        vested_time,
        s.pending_withdraw,
        &s.vests,
        ClaimType::Prism,
        0,
    )
    .unwrap();
    assert_eq!((k, amount), (1, 500_000));
    assert_eq!(
        actions,
        vec![Action::Transfer {
            asset: AssetInfo::Cw20("prism0000".to_string()),
            recipient: "alice0000".to_string(),
            amount: 500_000
        }]
    );
    let (k, amount, actions) = lp::claim_withdrawn_rewards(
        &sim.cfg,
        "cosmos2contract".to_string(),
        "alice0000".to_string(),
        vested_time,
        s.pending_withdraw,
        &s.vests,
        ClaimType::Amps,
        1_000,
    )
    .unwrap();
    assert_eq!((k, amount), (1, 500_000));
    assert_eq!(
        actions,
        vec![
            Action::MintXprism { amount: 500_000, receiver: "cosmos2contract".to_string() },
            Action::BondWithBoostContractHook {
                receiver: "alice0000".to_string(),
                prev_xprism_balance: 1_000
            },
        ]
    );
}

#[test]
fn update_vest_releases_ended_prefix() {
    let vests: Vec<(u64, u128)> = vec![(10, 5), (20, 7), (30, 11)];
    assert_eq!(update_vest(5, None, &vests), Ok((0, 0)));
    assert_eq!(update_vest(20, Some(3), &vests), Ok((15, 2)));
    assert_eq!(update_vest(100, Some(3), &vests), Ok((26, 3)));
    let many: Vec<(u64, u128)> = (0..60u64).map(|t| (t, 1u128)).collect();
    assert_eq!(update_vest(1000, None, &many), Ok((50, 50)));
    assert_eq!(update_vest(0, Some(u128::MAX), &vests), Ok((u128::MAX, 0)));
    assert_eq!(update_vest(10, Some(u128::MAX), &vests), Err(ContractError::Aborted));
}

#[test]
fn test_update_config() {
    let mut sim = Sim::new(Schedule { start: 100, end: 200, amount: 2_000_000 }, ONE / 2, DEFAULT_VESTING_PERIOD, 1_000);
    let eve = "eve0000".to_string();
    assert_eq!(
        update_config(&sim.cfg, &sim.pools, &eve, 0, Some(222), None),
        Err(ContractError::Unauthorized)
    );
    let owner = "owner0000".to_string();
    let (c, p) = update_config(&sim.cfg, &sim.pools, &owner, 0, None, None).unwrap();
    assert_eq!(c, sim.cfg);
    assert_eq!(p, sim.pools);
    let (c, _) = update_config(&sim.cfg, &sim.pools, &owner, 0, Some(222), None).unwrap();
    assert_eq!(c.min_bond_amount, 222);
    assert_eq!(
        update_config(&sim.cfg, &sim.pools, &owner, 0, None, Some(ONE + 1)),
        Err(ContractError::InvalidBasePoolRatio)
    );
    // half way through, the remaining half restarts under the new ratio
    sim.bond(100, "alice0000", 1_000).unwrap();
    let (c, p) = update_config(&sim.cfg, &sim.pools, &owner, 150, None, Some(ONE)).unwrap();
    assert_eq!(c.distribution_schedule, Schedule { start: 150, end: 200, amount: 1_000_000 });
    assert_eq!(c.base_pool_ratio, ONE);
    assert_eq!(p.base.total_distributed, 0);
    assert_eq!(p.base.reward_index, dec(500_000, 1_000));
    sim.cfg = c;
    sim.pools = p;
    assert_eq!(sim.base_status(200).reward_index, dec(500_000, 1_000) + dec(1_000_000, 1_000));
}

#[test]
fn reward_index_scenario_uses_uint128_rounding() {
    // the reward index is a floored decimal: 1/3 of a token per bond
    let mut sim = Sim::new(Schedule { start: 0, end: 10, amount: 10 }, ONE, DEFAULT_VESTING_PERIOD, 0);
    sim.bond(0, "a", 3).unwrap();
    let st = sim.base_status(1);
    assert_eq!(st.reward_index, Decimal::from_ratio(1u128, 3u128).atomics().u128());
    assert_eq!(Uint128::new(3).mul_floor(Decimal::raw(st.reward_index)).u128(), 0);
}

fn mock_now() -> u64 {
    mock_env().block.time.seconds()
}

fn prism_transfer(to: &str, amount: u128) -> Action {
    Action::Transfer {
        asset: AssetInfo::Cw20("prism0000".to_string()),
        recipient: to.to_string(),
        amount,
    }
}

/// Base and boost pools of 1_000_000 each between 100 and 200.
fn event_sim(min_bond: u128) -> Sim {
    Sim::new(Schedule { start: 100, end: 200, amount: 2_000_000 }, ONE / 2, DEFAULT_VESTING_PERIOD, min_bond)
}

#[test]
fn withdraw_rewards_with_no_bond() {
    let mut sim = event_sim(1);
    // withdraw 50 seconds into the event with nothing bonded
    sim.withdraw(150, "alice0000");
    assert_eq!(sim.vesting(150, "alice0000"), (vec![], 0));
    assert_eq!(sim.base_status(150), status(500_000, 0, 500_000, 0));

    // bond 100 and withdraw at once: all the pending rewards are hers
    sim.bond(150, "alice0000", 100).unwrap();
    sim.withdraw(150, "alice0000");
    let vested_time = compute_vested_time(150, DEFAULT_VESTING_PERIOD);
    assert_eq!(sim.vesting(150, "alice0000"), (vec![(vested_time, 500_000)], 0));
    assert_eq!(sim.base_status(150), status(500_000, 100, 0, dec(500_000, 100)));
    assert_eq!(sim.bonded("alice0000"), 100);
    assert_eq!(sim.reward_info("alice0000"), base_info(dec(500_000, 100), 0));
}

#[test]
fn withdraw_rewards_bulk_auth() {
    let mut sim = Sim::new(Schedule { start: 100, end: 200, amount: 2_000_000 }, ONE / 2, 100, 1_000);
    assert_eq!(
        sim.bulk_after(mock_now(), "alice0000", Some("monkey"), 2),
        Err(ContractError::Unauthorized)
    );
    assert_eq!(sim.bulk_after(mock_now(), "op0000", Some("monkey"), 2), Ok(String::new()));
}

#[test]
fn withdraw_rewards_bulk() {
    // 100 base rewards between 10 and 20, nothing for the boost pool
    let mut sim = Sim::new(Schedule { start: 10, end: 20, amount: 100 }, ONE, 21 * TIME_UNIT, 1);
    for (person, amount) in [("alice", 1), ("bob", 2), ("carol", 3), ("donald", 2), ("erika", 2)] {
        sim.bond(1, person, amount).unwrap();
    }
    let check = |sim: &Sim, want: [(&str, Vec<(u64, u128)>); 6]| {
        for (person, vests) in want {
            assert_eq!(sim.vesting(21, person), (vests, 0));
        }
        assert_eq!(sim.base_status(21), status(100, 10, 0, dec(100, 10)));
    };

    // alice is skipped
    assert_eq!(sim.bulk_after(21, "op0000", Some("alice"), 2), Ok("carol".to_string()));
    check(
        &sim,
        [
            ("alice", vec![]),
            ("bob", vec![(1814400, 20)]),
            ("carol", vec![(1814400, 30)]),
            ("donald", vec![]),
            ("erika", vec![]),
            ("unrecognized", vec![]),
        ],
    );

    // a limit beyond the number of stakers is fine
    assert_eq!(sim.bulk_after(21, "op0000", Some("carol"), 100), Ok("erika".to_string()));
    check(
        &sim,
        [
            ("alice", vec![]),
            ("bob", vec![(1814400, 20)]),
            ("carol", vec![(1814400, 30)]),
            ("donald", vec![(1814400, 20)]),
            ("erika", vec![(1814400, 20)]),
            ("unrecognized", vec![]),
        ],
    );

    // without a start, the first address comes first
    assert_eq!(sim.bulk_after(21, "op0000", None, 1), Ok("alice".to_string()));
    check(
        &sim,
        [
            ("alice", vec![(1814400, 10)]),
            ("bob", vec![(1814400, 20)]),
            ("carol", vec![(1814400, 30)]),
            ("donald", vec![(1814400, 20)]),
            ("erika", vec![(1814400, 20)]),
            ("unrecognized", vec![]),
        ],
    );
}

#[test]
fn bond() {
    let now = mock_now();
    let mut sim = Sim::new(
        Schedule { start: 100000000000000, end: 200000000000000, amount: 1_000_000 },
        ONE,
        DEFAULT_VESTING_PERIOD,
        100,
    );
    let s = sim.staker("addr0000");
    // wrong token
    assert_eq!(
        receive_bond(&sim.cfg, &sim.pools, &"lp00001".to_string(), s.bond_amount, s.reward_info, now, 99, 0),
        Err(ContractError::Unauthorized)
    );
    let token = "ylunatoken0000".to_string();
    // below the minimum bond
    assert_eq!(
        receive_bond(&sim.cfg, &sim.pools, &token, s.bond_amount, s.reward_info, now, 99, 0),
        Err(ContractError::BondTooLow { min_bond_amount: 100 })
    );
    let (u, actions) =
        receive_bond(&sim.cfg, &sim.pools, &token, s.bond_amount, s.reward_info, now, 100, 0).unwrap();
    assert_eq!(actions, vec![Action::StakeYluna { amount: 100 }]);
    sim.apply("addr0000", u);
    assert_eq!(sim.bonded("addr0000"), 100);
    assert_eq!(sim.reward_info("addr0000"), base_info(0, 0));
    assert_eq!(sim.base_status(now), status(0, 100, 0, 0));
}

#[test]
fn admin_withdraw_rewards() {
    let sim = event_sim(1_000);
    let balances = vec![
        (AssetInfo::Cw20("yluna0000".to_string()), 100),
        (AssetInfo::Cw20("pluna0000".to_string()), 200),
        (AssetInfo::Native("uluna".to_string()), 0),
    ];
    assert_eq!(
        lp::admin_withdraw_rewards(&sim.cfg, &"addr0000".to_string(), balances.clone()),
        Err(ContractError::Unauthorized)
    );
    assert_eq!(
        lp::admin_withdraw_rewards(&sim.cfg, &"owner0000".to_string(), balances.clone()),
        Ok(vec![
            Action::ClaimStakingRewards,
            Action::AdminSendWithdrawnRewards { original_balances: balances },
        ])
    );

    // the hook, after the claim brought in rewards
    let contract = MOCK_CONTRACT_ADDR.to_string();
    let after_claim = vec![
        (AssetInfo::Cw20("yluna0000".to_string()), 100, 250),
        (AssetInfo::Cw20("pluna0000".to_string()), 200, 400),
    ];
    assert_eq!(
        admin_send_withdrawn_rewards(&sim.cfg, &"addr0000".to_string(), &contract, &after_claim),
        Err(ContractError::Unauthorized)
    );
    assert_eq!(
        admin_send_withdrawn_rewards(&sim.cfg, &contract, &contract, &after_claim),
        Ok(vec![
            Action::Transfer {
                asset: AssetInfo::Cw20("yluna0000".to_string()),
                recipient: "owner0000".to_string(),
                amount: 150
            },
            Action::Transfer {
                asset: AssetInfo::Cw20("pluna0000".to_string()),
                recipient: "owner0000".to_string(),
                amount: 200
            },
        ])
    );
    // the same balances again: nothing to send
    let unchanged = vec![
        (AssetInfo::Cw20("yluna0000".to_string()), 250, 250),
        (AssetInfo::Cw20("pluna0000".to_string()), 400, 400),
    ];
    assert_eq!(admin_send_withdrawn_rewards(&sim.cfg, &contract, &contract, &unchanged), Ok(vec![]));
}

fn claim_after_vesting(claim_type: ClaimType, xprism_balance: u128) -> (Sim, u64, u128, Vec<Action>) {
    let mut sim = event_sim(100);
    sim.bond(90, "alice0000", 100).unwrap();
    sim.withdraw(150, "alice0000");
    let vested_time = compute_vested_time(150, DEFAULT_VESTING_PERIOD);
    let (amount, actions) = sim.claim(vested_time + 1, "alice0000", claim_type, xprism_balance).unwrap();
    (sim, vested_time, amount, actions)
}

fn check_claimed(sim: &Sim, vested_time: u64) {
    // the vest record is gone and nothing is pending
    assert_eq!(sim.vesting(vested_time + 1, "alice0000"), (vec![], 0));
    assert_eq!(sim.bonded("alice0000"), 100);
    assert_eq!(sim.reward_info("alice0000"), base_info(dec(500_000, 100), 0));
}

#[test]
fn test_claim_withdrawn_rewards_as_xprism() {
    let (sim, vested_time, amount, actions) = claim_after_vesting(ClaimType::Xprism, 0);
    assert_eq!(amount, 500_000);
    assert_eq!(actions, vec![Action::MintXprism { amount: 500_000, receiver: "alice0000".to_string() }]);
    check_claimed(&sim, vested_time);
}

#[test]
fn test_claim_withdrawn_rewards_as_amps() {
    let (sim, vested_time, amount, actions) = claim_after_vesting(ClaimType::Amps, 0);
    assert_eq!(amount, 500_000);
    assert_eq!(
        actions,
        vec![
            Action::MintXprism { amount: 500_000, receiver: MOCK_CONTRACT_ADDR.to_string() },
            Action::BondWithBoostContractHook {
                receiver: "alice0000".to_string(),
                prev_xprism_balance: 0
            },
        ]
    );
    check_claimed(&sim, vested_time);
}

#[test]
fn test_claim_withdrawn_rewards_as_amps_with_xprism_balance() {
    let (sim, vested_time, amount, actions) = claim_after_vesting(ClaimType::Amps, 1000);
    assert_eq!(amount, 500_000);
    assert_eq!(
        actions,
        vec![
            Action::MintXprism { amount: 500_000, receiver: MOCK_CONTRACT_ADDR.to_string() },
            Action::BondWithBoostContractHook {
                receiver: "alice0000".to_string(),
                prev_xprism_balance: 1000
            },
        ]
    );
    check_claimed(&sim, vested_time);
}

#[test]
fn test_bond_with_boost_contract_hook() {
    let contract = MOCK_CONTRACT_ADDR.to_string();
    let user = || "addr0000".to_string();
    // only this contract may call the hook
    assert_eq!(
        bond_with_boost_contract_hook(&"addr0000".to_string(), &contract, user(), 0, 0),
        Err(ContractError::Unauthorized)
    );
    assert_eq!(
        bond_with_boost_contract_hook(&contract, &contract, user(), 0, 1000),
        Ok((1000, vec![Action::BondWithBoost { amount: 1000, user: user() }]))
    );
    // a previous balance of 250 leaves 750 to bond
    assert_eq!(
        bond_with_boost_contract_hook(&contract, &contract, user(), 250, 1000),
        Ok((750, vec![Action::BondWithBoost { amount: 750, user: user() }]))
    );
    // a previous balance above the balance underflows
    assert_eq!(
        bond_with_boost_contract_hook(&contract, &contract, user(), 1500, 1000),
        Err(ContractError::Overflow)
    );
    // nothing to bond, no message
    assert_eq!(bond_with_boost_contract_hook(&contract, &contract, user(), 0, 0), Ok((0, vec![])));
}

#[test]
fn test_activate_boost_single_user() {
    let mut sim = event_sim(100);
    sim.boosts.insert("alice0000".to_string(), 50);
    sim.bond(90, "alice0000", 100).unwrap();
    sim.activate(90, "alice0000").unwrap();
    // the entire boost pool is hers
    sim.withdraw(150, "alice0000");
    let vested_time = compute_vested_time(150, DEFAULT_VESTING_PERIOD);

    let total_base_reward = 500_000u128;
    let total_boost_reward = 500_000u128;
    let alice_bonded = 100u128;
    let alice_boost_value = 50u128;
    let total_bonded = alice_bonded;
    let alice_boost_weight = (alice_bonded * alice_boost_value).integer_sqrt();
    let total_boost_weight = alice_boost_weight;
    let alice_base_reward =
        Uint128::from(total_base_reward) * Uint128::from(alice_bonded) / Uint128::from(total_bonded);
    let alice_boost_reward =
        Uint128::from(total_boost_reward) * Decimal::from_ratio(alice_boost_weight, total_boost_weight);
    // one less, from rounding
    let alice_total_reward = alice_base_reward + alice_boost_reward - Uint128::from(1u128);

    let (_, actions) = sim.claim(vested_time + 1, "alice0000", ClaimType::Prism, 0).unwrap();
    assert_eq!(actions, vec![prism_transfer("alice0000", alice_total_reward.u128())]);
    assert_eq!(sim.bonded("alice0000"), alice_bonded);
    assert_eq!(
        sim.reward_info("alice0000"),
        RewardInfo {
            base_index: dec(total_base_reward, total_bonded),
            pending_reward: 0,
            boost_index: dec(total_boost_reward, total_boost_weight),
            boost_weight: alice_boost_weight,
            active_boost: alice_boost_value,
        }
    );
}

#[test]
fn test_activate_boost_multi_user() {
    let mut sim = event_sim(100);
    sim.boosts.insert("alice0000".to_string(), 50);
    sim.boosts.insert("bob0000".to_string(), 50);
    sim.bond(90, "alice0000", 100).unwrap();
    sim.activate(90, "alice0000").unwrap();
    sim.bond(90, "bob0000", 500).unwrap();
    sim.activate(90, "bob0000").unwrap();
    sim.withdraw(150, "alice0000");
    sim.withdraw(150, "bob0000");
    let vested_time1 = compute_vested_time(150, DEFAULT_VESTING_PERIOD);

    let total_base_reward = 500_000u128;
    let total_boost_reward = 500_000u128;
    let alice_bonded = 100u128;
    let alice_boost_value = 50u128;
    let bob_bonded = 500u128;
    let bob_boost_value = 50u128;
    let total_bonded = alice_bonded + bob_bonded;
    let alice_boost_weight = (alice_bonded * alice_boost_value).integer_sqrt();
    let bob_boost_weight = (bob_bonded * bob_boost_value).integer_sqrt();
    let total_boost_weight = alice_boost_weight + bob_boost_weight;
    let alice_base_reward =
        Uint128::from(total_base_reward) * Uint128::from(alice_bonded) / Uint128::from(total_bonded);
    let alice_boost_reward =
        Uint128::from(total_boost_reward) * Decimal::from_ratio(alice_boost_weight, total_boost_weight);
    let alice_total_reward = alice_base_reward + alice_boost_reward;
    let bob_base_reward =
        Uint128::from(total_base_reward) * Uint128::from(bob_bonded) / Uint128::from(total_bonded);
    let bob_boost_reward =
        Uint128::from(total_boost_reward) * Decimal::from_ratio(bob_boost_weight, total_boost_weight);
    let bob_total_reward = bob_base_reward + bob_boost_reward;

    let (_, actions) = sim.claim(vested_time1 + 1, "alice0000", ClaimType::Prism, 0).unwrap();
    assert_eq!(actions, vec![prism_transfer("alice0000", alice_total_reward.u128())]);
    assert_eq!(sim.bonded("alice0000"), alice_bonded);
    assert_eq!(
        sim.reward_info("alice0000"),
        RewardInfo {
            base_index: dec(total_base_reward, total_bonded),
            pending_reward: 0,
            boost_index: dec(total_boost_reward, total_boost_weight),
            boost_weight: alice_boost_weight,
            active_boost: alice_boost_value,
        }
    );

    let (_, actions) = sim.claim(vested_time1 + 1, "bob0000", ClaimType::Prism, 0).unwrap();
    assert_eq!(actions, vec![prism_transfer("bob0000", bob_total_reward.u128())]);
    assert_eq!(sim.bonded("bob0000"), bob_bonded);
    assert_eq!(
        sim.reward_info("bob0000"),
        RewardInfo {
            base_index: dec(total_base_reward, total_bonded),
            pending_reward: 0,
            boost_index: dec(total_boost_reward, total_boost_weight),
            boost_weight: bob_boost_weight,
            active_boost: bob_boost_value,
        }
    );
}

#[test]
fn test_activate_boost_multi_user_two_intervals() {
    let mut sim = event_sim(100);
    sim.boosts.insert("alice0000".to_string(), 50);
    sim.boosts.insert("bob0000".to_string(), 50);
    sim.bond(90, "alice0000", 100).unwrap();
    sim.activate(90, "alice0000").unwrap();
    sim.bond(90, "bob0000", 500).unwrap();
    sim.activate(90, "bob0000").unwrap();
    sim.withdraw(150, "alice0000");
    sim.withdraw(150, "bob0000");
    let vested_time1 = compute_vested_time(150, DEFAULT_VESTING_PERIOD);

    // for the second half, alice's boost becomes 75 and only she re-activates it
    sim.boosts.insert("alice0000".to_string(), 75);
    sim.activate(150, "alice0000").unwrap();
    // withdrawing at 200 vests on the same day as at 150
    sim.withdraw(200, "alice0000");
    sim.withdraw(200, "bob0000");

    let total_base_reward = 1_000_000u128;
    let interval_base_reward = 500_000u128;
    let interval_boost_reward = 500_000u128;
    let alice_bonded = 100u128;
    let alice_boost_value = 50u128;
    let bob_bonded = 500u128;
    let bob_boost_value = 50u128;
    let total_bonded = alice_bonded + bob_bonded;
    let alice_boost_weight = (alice_bonded * alice_boost_value).integer_sqrt();
    let bob_boost_weight = (bob_bonded * bob_boost_value).integer_sqrt();
    let total_boost_weight = alice_boost_weight + bob_boost_weight;
    let alice_base_reward =
        Uint128::from(interval_base_reward) * Uint128::from(alice_bonded) / Uint128::from(total_bonded);
    let alice_boost_reward = Uint128::from(interval_boost_reward)
        * Decimal::from_ratio(alice_boost_weight, total_boost_weight);
    let mut alice_total_reward = alice_base_reward + alice_boost_reward;
    let bob_base_reward =
        Uint128::from(interval_boost_reward) * Uint128::from(bob_bonded) / Uint128::from(total_bonded);
    let bob_boost_reward =
        Uint128::from(interval_boost_reward) * Decimal::from_ratio(bob_boost_weight, total_boost_weight);
    let mut bob_total_reward = bob_base_reward + bob_boost_reward;
    let mut boost_index = Decimal::from_ratio(interval_base_reward, total_boost_weight);

    let alice_boost_value2 = 75u128;
    let alice_boost_weight2 = (alice_bonded * alice_boost_value2).integer_sqrt();
    let total_boost_weight2 = alice_boost_weight2 + bob_boost_weight;
    let alice_boost_reward2 = Uint128::from(interval_boost_reward)
        * Decimal::from_ratio(alice_boost_weight2, total_boost_weight2);
    let bob_boost_reward2 =
        Uint128::from(interval_boost_reward) * Decimal::from_ratio(bob_boost_weight, total_boost_weight2);
    alice_total_reward += alice_base_reward + alice_boost_reward2;
    // one more, from rounding
    bob_total_reward += bob_base_reward + bob_boost_reward2 + Uint128::from(1u128);
    boost_index = boost_index + Decimal::from_ratio(interval_base_reward, total_boost_weight2);

    let (_, actions) = sim.claim(vested_time1 + 1, "alice0000", ClaimType::Prism, 0).unwrap();
    assert_eq!(actions, vec![prism_transfer("alice0000", alice_total_reward.u128())]);
    assert_eq!(sim.bonded("alice0000"), alice_bonded);
    assert_eq!(
        sim.reward_info("alice0000"),
        RewardInfo {
            base_index: dec(total_base_reward, total_bonded),
            pending_reward: 0,
            boost_index: boost_index.atomics().u128(),
            boost_weight: alice_boost_weight2,
            active_boost: alice_boost_value2,
        }
    );

    let (_, actions) = sim.claim(vested_time1 + 1, "bob0000", ClaimType::Prism, 0).unwrap();
    assert_eq!(actions, vec![prism_transfer("bob0000", bob_total_reward.u128())]);
    assert_eq!(sim.bonded("bob0000"), bob_bonded);
    assert_eq!(
        sim.reward_info("bob0000"),
        RewardInfo {
            base_index: dec(total_base_reward, total_bonded),
            pending_reward: 0,
            boost_index: boost_index.atomics().u128(),
            boost_weight: bob_boost_weight,
            active_boost: bob_boost_value,
        }
    );
}

#[test]
fn test_refresh_boost_unauthorized() {
    let mut sim = event_sim(100);
    sim.boosts.insert("alice0000".to_string(), 50);
    assert_eq!(
        sim.privileged_refresh(mock_now(), "eve0000", "alice0000"),
        Err(ContractError::Unauthorized)
    );
    assert_eq!(sim.privileged_refresh(mock_now(), "boost0000", "alice0000"), Ok((0, 50)));
}

#[test]
fn test_refresh_boost_authorized() {
    let mut sim = event_sim(100);
    sim.boosts.insert("alice0000".to_string(), 50);
    sim.bond(90, "alice0000", 100).unwrap();
    sim.activate(90, "alice0000").unwrap();
    // ten seconds into the event the entire boost pool is hers
    sim.withdraw(110, "alice0000");
    let vested_time = compute_vested_time(110, DEFAULT_VESTING_PERIOD);

    let total_base_reward1 = 100_000u128;
    let total_boost_reward1 = 100_000u128;
    let alice_bonded = 100u128;
    let alice_boost_value1 = 50u128;
    let total_bonded = alice_bonded;
    let alice_boost_weight1 = (alice_bonded * alice_boost_value1).integer_sqrt();
    let total_boost_weight1 = alice_boost_weight1;
    let alice_base_reward1 =
        Uint128::from(total_base_reward1) * Uint128::from(alice_bonded) / Uint128::from(total_bonded);
    let alice_boost_reward1 = Uint128::from(total_boost_reward1)
        * Decimal::from_ratio(alice_boost_weight1, total_boost_weight1);
    // one less, from rounding
    let alice_total_reward1 = alice_base_reward1 + alice_boost_reward1 - Uint128::from(1u128);
    assert_eq!(sim.vesting(110, "alice0000"), (vec![(vested_time, alice_total_reward1.u128())], 0));
    assert_eq!(sim.bonded("alice0000"), alice_bonded);
    assert_eq!(
        sim.reward_info("alice0000"),
        RewardInfo {
            base_index: dec(total_base_reward1, total_bonded),
            pending_reward: 0,
            boost_index: dec(total_boost_reward1, total_boost_weight1),
            boost_weight: alice_boost_weight1,
            active_boost: alice_boost_value1,
        }
    );

    // her boost drops to 0 and the boost contract tells the pool
    sim.boosts.insert("alice0000".to_string(), 0);
    assert_eq!(sim.privileged_refresh(110, "boost0000", "alice0000"), Ok((100, 0)));

    // ten seconds later she withdraws again, with no boost this time
    sim.withdraw(120, "alice0000");
    let vested_time = compute_vested_time(120, DEFAULT_VESTING_PERIOD);
    let total_base_reward2 = 100_000u128;
    let alice_base_reward2 =
        Uint128::from(total_base_reward2) * Uint128::from(alice_bonded) / Uint128::from(total_bonded);
    let alice_boost_reward2 = Uint128::zero();
    let alice_total_reward2 = alice_base_reward2 + alice_boost_reward2;
    assert_eq!(
        sim.vesting(120, "alice0000"),
        (vec![(vested_time, (alice_total_reward1 + alice_total_reward2).u128())], 0)
    );
    assert_eq!(
        sim.reward_info("alice0000"),
        RewardInfo {
            base_index: (Decimal::from_ratio(total_base_reward1, total_bonded)
                + Decimal::from_ratio(total_base_reward2, total_bonded))
            .atomics()
            .u128(),
            pending_reward: 0,
            boost_index: dec(total_boost_reward1, total_boost_weight1),
            boost_weight: 0,
            active_boost: 0,
        }
    );
}

#[test]
fn test_activate_boost_for_user_without_anything_bonded() {
    let mut sim = event_sim(100);
    sim.boosts.insert("alice0000".to_string(), 50);
    assert_eq!(sim.activate(mock_now(), "alice0000"), Ok((0, 50)));
    assert_eq!(sim.bonded("alice0000"), 0);
    assert_eq!(
        sim.reward_info("alice0000"),
        RewardInfo { base_index: 0, boost_index: 0, active_boost: 50, boost_weight: 0, pending_reward: 0 }
    );
}

#[test]
fn bond_then_unbond_restores_the_pool_weights() {
    let mut sim = event_sim(1);
    sim.boosts.insert("carol".to_string(), 40);
    sim.bond(120, "alice", 10).unwrap();
    let before = sim.pools;
    sim.bond(130, "carol", 90).unwrap();
    assert_eq!(sim.pools.boost.total_weight, before.boost.total_weight + 60);
    let actions = sim.unbond(130, "carol", None).unwrap();
    assert_eq!(actions[0], Action::UnstakeYluna { amount: 90 });
    assert_eq!(sim.pools.base.total_weight, before.base.total_weight);
    assert_eq!(sim.pools.boost.total_weight, before.boost.total_weight);
    assert_eq!(sim.staker("carol").bond_amount, Some(0));
}

#[test]
fn bulk_batch_picks_addresses_after_the_start() {
    let addresses: Vec<String> =
        ["alice", "bob", "carol", "donald"].iter().map(|a| a.to_string()).collect();
    assert_eq!(lp::bulk_batch(&addresses, &Some("alice".to_string()), 2), (vec![1, 2], "carol".to_string()));
    assert_eq!(lp::bulk_batch(&addresses, &Some("b".to_string()), 10), (vec![1, 2, 3], "donald".to_string()));
    assert_eq!(lp::bulk_batch(&addresses, &None, 1), (vec![0], "alice".to_string()));
    assert_eq!(lp::bulk_batch(&addresses, &Some("zed".to_string()), 5), (vec![], String::new()));
    assert_eq!(lp::bulk_batch(&addresses, &None, 0), (vec![], String::new()));
}
