use reward_oracle::address::Address;
use reward_oracle::config::{RewardConfig, ScheduledReward};
use reward_oracle::graphql::{DebtEntry, ExchangeEntry, PerpFeeEntry, RewardClaim};
use reward_oracle::rewards::{
    anchor_block, compose, compute_rewards, Period, PeriodData, PeriodError,
};
use reward_oracle::shares::RewardError;
use reward_oracle::uint::U256;
use reward_oracle::worker::WorkerConfig;

const UNIT: &str = "1000000000000000000";
const MAX: &str = "115792089237316195423570985008687907853269984665640564039457584007913129639935";

fn addr(last: u8) -> Address {
    let mut bytes = [0u8; 20];
    bytes[19] = last;
    Address { bytes }
}

fn amount(text: &str) -> U256 {
    U256::from_dec_str(text).unwrap()
}

fn debt(index: u64, address: Address, proportion: &str, timestamp: u64) -> DebtEntry {
    DebtEntry {
        id: format!("debt-{index}"),
        index,
        address,
        debt_factor: amount(UNIT),
        debt_proportion: amount(proportion),
        timestamp,
    }
}

fn exchange(index: u64, from: Address, fee: &str, timestamp: u64) -> ExchangeEntry {
    ExchangeEntry {
        id: format!("exchange-{index}"),
        index,
        from_addr: from,
        source_key: "lUSD".to_string(),
        source_amount: amount("1000"),
        dest_addr: from,
        dest_key: "lBTC".to_string(),
        dest_recived: amount("1"),
        fee_for_pool: amount(fee),
        fee_for_foundation: amount("0"),
        timestamp,
    }
}

fn perp_fee(index: u64, fee: &str, timestamp: u64) -> PerpFeeEntry {
    PerpFeeEntry {
        id: format!("perp-{index}"),
        index,
        fee_for_pool: amount(fee),
        fee_for_foundation: amount("0"),
        timestamp,
    }
}

fn claim(index: u64, recipient: Address, period_id: u32, staking: &str) -> RewardClaim {
    RewardClaim {
        id: format!("claim-{index}"),
        index,
        recipient,
        period_id,
        staking_reward: amount(staking),
        fee_reward: amount("0"),
    }
}

fn schedule(first: u64, duration: u64) -> WorkerConfig {
    WorkerConfig { first_period_start_time: first, period_duration: duration, signers: vec![] }
}

fn config(excluded: Vec<Address>, rewards: Vec<(u32, &str)>) -> RewardConfig {
    RewardConfig {
        has_legacy_chain: false,
        exclude_list: excluded,
        staking_reward_schedule: rewards
            .into_iter()
            .map(|(period_id, reward)| ScheduledReward { period_id, reward: amount(reward) })
            .collect(),
    }
}

fn data(debts: Vec<DebtEntry>) -> PeriodData {
    PeriodData {
        debt_entries: debts,
        exchange_entries: vec![],
        perp_fee_entries: vec![],
        reward_claims: vec![],
    }
}

#[test]
fn period_starts_follow_the_schedule() {
    let p = Period::resolve(&schedule(10, 2), 136).unwrap();
    assert_eq!(p, Period { period_id: 136, start_time: 282, duration: 2 });
    let first = Period::resolve(&schedule(10, 2), 0).unwrap();
    assert_eq!(first, Period { period_id: 0, start_time: 10, duration: 2 });
}

#[test]
fn period_beyond_the_clock_is_refused() {
    assert_eq!(Period::resolve(&schedule(u64::MAX - 3, 2), 1), None);
    assert_eq!(
        Period::resolve(&schedule(u64::MAX - 4, 2), 1),
        Some(Period { period_id: 1, start_time: u64::MAX - 2, duration: 2 })
    );
    assert_eq!(Period::resolve(&schedule(0, u64::MAX), 1), None);
}

#[test]
fn single_staker_receives_whole_scheduled_reward() {
    let period = Period::resolve(&schedule(10, 2), 136).unwrap();
    let d = compute_rewards(
        1,
        &period,
        &data(vec![debt(0, addr(0xaa), "1000000000000000000000000000", 283)]),
        &config(vec![], vec![(136, "100000000000000000")]),
    )
    .unwrap();
    assert_eq!(d.entries.len(), 1);
    assert_eq!(d.entries[0].recipient, addr(0xaa));
    assert_eq!(d.entries[0].staking_reward, amount("100000000000000000"));
    assert_eq!(d.entries[0].fee_reward, U256::zero());
    assert_eq!(d.entries[0].period_id, 136);
    assert_eq!(d.entries[0].chain_id, 1);
    assert_eq!(d.composition.scheduled_staking_rewards, amount("100000000000000000"));
    assert_eq!(d.composition.rollover_staking_rewards, U256::zero());
}

#[test]
fn single_staker_in_first_period() {
    let period = Period::resolve(&schedule(10, 2), 0).unwrap();
    let d = compute_rewards(
        1,
        &period,
        &data(vec![debt(0, addr(0xaa), "1000000000000000000000000000", 11)]),
        &config(vec![], vec![(0, "100000000000000000")]),
    )
    .unwrap();
    assert_eq!(d.entries.len(), 1);
    assert_eq!(d.entries[0].recipient, addr(0xaa));
    assert_eq!(d.entries[0].staking_reward, amount("100000000000000000"));
    assert_eq!(d.entries[0].fee_reward, U256::zero());
}

#[test]
fn snapshot_outside_the_period_has_no_weight() {
    let period = Period::resolve(&schedule(10, 2), 136).unwrap();
    let d = compute_rewards(
        1,
        &period,
        &data(vec![debt(0, addr(0xaa), "1000000000000000000000000000", 11)]),
        &config(vec![], vec![(136, "100000000000000000")]),
    )
    .unwrap();
    assert!(d.entries.is_empty());
    assert!(d.weights.is_empty());
    assert_eq!(d.composition.scheduled_staking_rewards, amount("100000000000000000"));
}

#[test]
fn window_is_closed_at_start_and_open_at_end() {
    let period = Period::resolve(&schedule(100, 10), 0).unwrap();
    let cfg = config(vec![], vec![(0, "1000")]);
    let at_start = compute_rewards(1, &period, &data(vec![debt(0, addr(1), UNIT, 100)]), &cfg);
    assert_eq!(at_start.unwrap().entries.len(), 1);
    let last = compute_rewards(1, &period, &data(vec![debt(0, addr(1), UNIT, 109)]), &cfg);
    assert_eq!(last.unwrap().entries.len(), 1);
    let at_end = compute_rewards(1, &period, &data(vec![debt(0, addr(1), UNIT, 110)]), &cfg);
    assert!(at_end.unwrap().entries.is_empty());
    let before = compute_rewards(1, &period, &data(vec![debt(0, addr(1), UNIT, 99)]), &cfg);
    assert!(before.unwrap().entries.is_empty());
}

#[test]
fn staking_rewards_are_conserved() {
    let period = Period::resolve(&schedule(0, 100), 0).unwrap();
    let d = compute_rewards(
        5,
        &period,
        &data(vec![
            debt(0, addr(3), "200000000000000000", 10),
            debt(1, addr(1), "500000000000000000", 20),
            debt(2, addr(2), "300000000000000000", 30),
        ]),
        &config(vec![], vec![(0, "100000000000000000000")]),
    )
    .unwrap();
    assert_eq!(d.entries.len(), 3);
    assert_eq!(d.entries[0].recipient, addr(1));
    assert_eq!(d.entries[0].staking_reward, amount("50000000000000000000"));
    assert_eq!(d.entries[1].recipient, addr(2));
    assert_eq!(d.entries[1].staking_reward, amount("30000000000000000000"));
    assert_eq!(d.entries[2].recipient, addr(3));
    assert_eq!(d.entries[2].staking_reward, amount("20000000000000000000"));
    let mut total = U256::zero();
    for e in &d.entries {
        total = total.checked_add(&e.staking_reward).unwrap();
    }
    assert_eq!(total, d.composition.staking_reward_for_period());
    assert_eq!(total, amount("100000000000000000000"));
}

#[test]
fn remainder_goes_to_last_holder() {
    let period = Period::resolve(&schedule(0, 100), 0).unwrap();
    let d = compute_rewards(
        5,
        &period,
        &data(vec![debt(0, addr(1), "1", 10), debt(1, addr(2), "1", 20), debt(2, addr(3), "1", 30)]),
        &config(vec![], vec![(0, "100")]),
    )
    .unwrap();
    assert_eq!(d.entries[0].staking_reward, amount("33"));
    assert_eq!(d.entries[1].staking_reward, amount("33"));
    assert_eq!(d.entries[2].staking_reward, amount("34"));
}

#[test]
fn large_amounts_do_not_overflow_the_product() {
    let period = Period::resolve(&schedule(0, 100), 0).unwrap();
    let half = "57896044618658097711785492504343953926634992332820282019728792003956564819967";
    let d = compute_rewards(
        5,
        &period,
        &data(vec![debt(0, addr(1), half, 10), debt(1, addr(2), half, 20)]),
        &config(vec![], vec![(0, MAX)]),
    )
    .unwrap();
    assert_eq!(d.entries[0].staking_reward, amount(half));
    assert_eq!(
        d.entries[1].staking_reward,
        amount("57896044618658097711785492504343953926634992332820282019728792003956564819968")
    );
}

#[test]
fn latest_snapshot_in_the_period_counts() {
    let period = Period::resolve(&schedule(0, 100), 0).unwrap();
    let d = compute_rewards(
        5,
        &period,
        &data(vec![
            debt(0, addr(1), "900", 10),
            debt(1, addr(2), "100", 20),
            debt(2, addr(1), "100", 30),
            debt(3, addr(1), "700", 130),
        ]),
        &config(vec![], vec![(0, "1000")]),
    )
    .unwrap();
    assert_eq!(d.entries.len(), 2);
    assert_eq!(d.entries[0].staking_reward, amount("500"));
    assert_eq!(d.entries[1].staking_reward, amount("500"));
    assert_eq!(d.weights[0].staking_weight, amount("100"));
}

#[test]
fn address_with_zero_latest_share_is_left_out() {
    let period = Period::resolve(&schedule(0, 100), 0).unwrap();
    let d = compute_rewards(
        5,
        &period,
        &data(vec![debt(0, addr(1), "900", 10), debt(1, addr(2), "100", 20), debt(2, addr(1), "0", 30)]),
        &config(vec![], vec![(0, "1000")]),
    )
    .unwrap();
    assert_eq!(d.entries.len(), 1);
    assert_eq!(d.entries[0].recipient, addr(2));
    assert_eq!(d.entries[0].staking_reward, amount("1000"));
}

#[test]
fn excluded_address_never_appears() {
    let period = Period::resolve(&schedule(0, 100), 0).unwrap();
    let mut collected = data(vec![debt(0, addr(1), "600", 10), debt(1, addr(2), "400", 20)]);
    collected.exchange_entries = vec![exchange(0, addr(1), "70", 15), exchange(1, addr(2), "30", 16)];
    let d = compute_rewards(5, &period, &collected, &config(vec![addr(1)], vec![(0, "1000")])).unwrap();
    assert_eq!(d.entries.len(), 1);
    assert!(d.entries.iter().all(|e| e.recipient != addr(1)));
    assert_eq!(d.entries[0].recipient, addr(2));
    assert_eq!(d.entries[0].staking_reward, amount("1000"));
    assert_eq!(d.entries[0].fee_reward, amount("100"));
}

#[test]
fn claimant_is_left_out_of_recomputation() {
    let period = Period::resolve(&schedule(0, 100), 1).unwrap();
    let mut collected = data(vec![debt(0, addr(1), "600", 110), debt(1, addr(2), "400", 120)]);
    collected.reward_claims = vec![claim(0, addr(1), 1, "600"), claim(1, addr(2), 0, "5")];
    let claims_before = collected.reward_claims.clone();
    let d = compute_rewards(5, &period, &collected, &config(vec![], vec![(1, "1000")])).unwrap();
    assert_eq!(collected.reward_claims, claims_before);
    assert_eq!(d.entries.len(), 1);
    assert_eq!(d.entries[0].recipient, addr(2));
    assert!(d.entries.iter().all(|e| e.recipient != addr(1)));
}

#[test]
fn entries_come_in_ascending_order_of_recipient() {
    let period = Period::resolve(&schedule(0, 100), 0).unwrap();
    let mut high = [0u8; 20];
    high[0] = 1;
    let mut low = [0u8; 20];
    low[19] = 0xff;
    let debts = vec![
        debt(0, Address { bytes: high }, "1", 10),
        debt(1, Address { bytes: low }, "1", 11),
        debt(2, addr(7), "1", 12),
        debt(3, addr(3), "1", 13),
    ];
    let cfg = config(vec![], vec![(0, "1000")]);
    let d = compute_rewards(5, &period, &data(debts.clone()), &cfg).unwrap();
    let recipients: Vec<Address> = d.entries.iter().map(|e| e.recipient).collect();
    assert_eq!(recipients, vec![addr(3), addr(7), Address { bytes: low }, Address { bytes: high }]);
    let mut reversed = debts;
    reversed.reverse();
    let again = compute_rewards(5, &period, &data(reversed), &cfg).unwrap();
    assert_eq!(again.entries, d.entries);
    assert_eq!(again, d);
}

#[test]
fn recomputation_gives_the_same_distribution() {
    let period = Period::resolve(&schedule(0, 100), 2).unwrap();
    let mut collected = data(vec![debt(0, addr(9), "3", 210), debt(1, addr(4), "4", 220)]);
    collected.exchange_entries = vec![exchange(0, addr(5), "11", 230)];
    collected.perp_fee_entries = vec![perp_fee(0, "13", 240)];
    let cfg = config(vec![], vec![(2, "1000"), (0, "8")]);
    let first = compute_rewards(5, &period, &collected, &cfg).unwrap();
    let second = compute_rewards(5, &period, &collected.clone(), &cfg.clone()).unwrap();
    assert_eq!(first, second);
}

#[test]
fn fees_are_split_by_fee_weight_and_conserved() {
    let period = Period::resolve(&schedule(0, 100), 0).unwrap();
    let mut collected = data(vec![debt(0, addr(1), "1", 10)]);
    collected.exchange_entries = vec![
        exchange(0, addr(2), "30", 15),
        exchange(1, addr(3), "60", 16),
        exchange(2, addr(2), "10", 17),
        exchange(3, addr(2), "999", 100),
    ];
    collected.perp_fee_entries = vec![perp_fee(0, "50", 20), perp_fee(1, "7", 100)];
    let d = compute_rewards(5, &period, &collected, &config(vec![], vec![(0, "1000")])).unwrap();
    assert_eq!(d.composition.fees_accumulated, amount("150"));
    assert_eq!(d.composition.rollover_fees, U256::zero());
    assert_eq!(d.entries.len(), 3);
    assert_eq!(d.entries[0].recipient, addr(1));
    assert_eq!(d.entries[0].staking_reward, amount("1000"));
    assert_eq!(d.entries[0].fee_reward, U256::zero());
    assert_eq!(d.entries[1].recipient, addr(2));
    assert_eq!(d.entries[1].staking_reward, U256::zero());
    assert_eq!(d.entries[1].fee_reward, amount("60"));
    assert_eq!(d.entries[2].recipient, addr(3));
    assert_eq!(d.entries[2].fee_reward, amount("90"));
    let mut total = U256::zero();
    for e in &d.entries {
        total = total.checked_add(&e.fee_reward).unwrap();
    }
    assert_eq!(total, d.composition.fee_reward_for_period());
}

#[test]
fn undistributed_rewards_roll_over_once() {
    let cfg = config(vec![], vec![(0, "100"), (1, "200"), (2, "400"), (3, "800")]);
    let mut collected = data(vec![debt(0, addr(1), "1", 250)]);
    collected.perp_fee_entries = vec![perp_fee(0, "5", 50), perp_fee(1, "6", 150), perp_fee(2, "7", 350)];
    collected.exchange_entries = vec![exchange(0, addr(2), "9", 260)];
    let sched = schedule(0, 100);
    let in_first = compose(&Period::resolve(&sched, 0).unwrap(), &collected, &cfg).unwrap();
    assert_eq!(in_first.scheduled_staking_rewards, amount("100"));
    assert_eq!(in_first.rollover_staking_rewards, U256::zero());
    assert_eq!(in_first.fees_accumulated, amount("5"));
    let in_second = compose(&Period::resolve(&sched, 1).unwrap(), &collected, &cfg).unwrap();
    assert_eq!(in_second.rollover_staking_rewards, amount("100"));
    assert_eq!(in_second.rollover_fees, amount("5"));
    assert_eq!(in_second.fees_accumulated, amount("6"));
    let in_third = compose(&Period::resolve(&sched, 2).unwrap(), &collected, &cfg).unwrap();
    assert_eq!(in_third.scheduled_staking_rewards, amount("400"));
    assert_eq!(in_third.rollover_staking_rewards, amount("300"));
    assert_eq!(in_third.staking_reward_for_period(), amount("700"));
    assert_eq!(in_third.fees_accumulated, amount("9"));
    assert_eq!(in_third.rollover_fees, amount("11"));
    assert_eq!(in_third.fee_reward_for_period(), amount("20"));
    let in_fourth = compose(&Period::resolve(&sched, 3).unwrap(), &collected, &cfg).unwrap();
    assert_eq!(in_fourth.scheduled_staking_rewards, amount("800"));
    assert_eq!(in_fourth.rollover_staking_rewards, U256::zero());
    assert_eq!(in_fourth.fees_accumulated, amount("7"));
    assert_eq!(in_fourth.rollover_fees, U256::zero());
    let d = compute_rewards(5, &Period::resolve(&sched, 2).unwrap(), &collected, &cfg).unwrap();
    assert_eq!(d.entries.len(), 2);
    assert_eq!(d.entries[0].staking_reward, amount("700"));
    assert_eq!(d.entries[1].fee_reward, amount("20"));
}

#[test]
fn excluded_staker_does_not_stop_the_rollover() {
    let cfg = config(vec![addr(1)], vec![(0, "100"), (1, "200")]);
    let collected = data(vec![debt(0, addr(1), "1", 50), debt(1, addr(2), "1", 150)]);
    let d = compute_rewards(5, &Period::resolve(&schedule(0, 100), 1).unwrap(), &collected, &cfg).unwrap();
    assert_eq!(d.composition.rollover_staking_rewards, amount("100"));
    assert_eq!(d.entries.len(), 1);
    assert_eq!(d.entries[0].staking_reward, amount("300"));
}

#[test]
fn reward_overflow_is_an_error() {
    let cfg = config(vec![], vec![(0, MAX), (1, "1")]);
    let period = Period::resolve(&schedule(0, 100), 1).unwrap();
    let r = compute_rewards(5, &period, &data(vec![debt(0, addr(1), "1", 150)]), &cfg);
    assert_eq!(r, Err(RewardError::ArithmeticOverflow));
    assert_eq!(compose(&period, &data(vec![]), &cfg), Err(RewardError::ArithmeticOverflow));
    let fits = config(vec![], vec![(0, MAX), (1, "0")]);
    let d = compute_rewards(5, &period, &data(vec![debt(0, addr(1), "1", 150)]), &fits).unwrap();
    assert_eq!(d.entries[0].staking_reward, amount(MAX));
}

#[test]
fn weight_overflow_is_an_error() {
    let period = Period::resolve(&schedule(0, 100), 0).unwrap();
    let cfg = config(vec![], vec![(0, "10")]);
    let r = compute_rewards(
        5,
        &period,
        &data(vec![debt(0, addr(1), MAX, 10), debt(1, addr(2), "1", 20)]),
        &cfg,
    );
    assert_eq!(r, Err(RewardError::ArithmeticOverflow));
    let mut fees = data(vec![]);
    fees.exchange_entries = vec![exchange(0, addr(1), MAX, 10), exchange(1, addr(1), "1", 20)];
    assert_eq!(compute_rewards(5, &period, &fees, &cfg), Err(RewardError::ArithmeticOverflow));
}

#[test]
fn no_inputs_give_no_entries() {
    let period = Period::resolve(&schedule(0, 100), 0).unwrap();
    let d = compute_rewards(5, &period, &data(vec![]), &config(vec![], vec![])).unwrap();
    assert!(d.entries.is_empty());
    assert_eq!(d.composition.staking_reward_for_period(), U256::zero());
    assert_eq!(d.composition.fee_reward_for_period(), U256::zero());
}

#[test]
fn last_schedule_entry_for_a_period_counts() {
    let cfg = config(vec![], vec![(0, "100"), (1, "7"), (0, "250")]);
    assert_eq!(cfg.scheduled_for(0), amount("250"));
    assert_eq!(cfg.scheduled_for(1), amount("7"));
    assert_eq!(cfg.scheduled_for(2), U256::zero());
}

#[test]
fn next_period_is_settled_once_it_has_ended() {
    let sched = schedule(10, 2);
    assert_eq!(
        Period::next_to_settle(&sched, 135, 284),
        Ok(Period { period_id: 136, start_time: 282, duration: 2 })
    );
    assert_eq!(
        Period::next_to_settle(&sched, 135, u64::MAX),
        Ok(Period { period_id: 136, start_time: 282, duration: 2 })
    );
    assert_eq!(Period::next_to_settle(&sched, 135, 283), Err(PeriodError::NotEnded));
    assert_eq!(Period::next_to_settle(&sched, 135, 0), Err(PeriodError::NotEnded));
    assert_eq!(Period::next_to_settle(&sched, u32::MAX, u64::MAX), Err(PeriodError::NoSuccessor));
    assert_eq!(
        Period::next_to_settle(&schedule(u64::MAX - 3, 2), 0, u64::MAX),
        Err(PeriodError::OffTheClock)
    );
    let ends_with_the_clock = Period::next_to_settle(&schedule(u64::MAX - 4, 2), 0, u64::MAX).unwrap();
    assert!(ends_with_the_clock.has_ended(u64::MAX));
    assert!(!ends_with_the_clock.has_ended(u64::MAX - 1));
}

#[test]
fn anchor_stays_behind_the_head() {
    assert_eq!(anchor_block(100, 10), 90);
    assert_eq!(anchor_block(10, 10), 0);
    assert_eq!(anchor_block(3, 10), 0);
    assert_eq!(anchor_block(u64::MAX, 0), u64::MAX);
}
