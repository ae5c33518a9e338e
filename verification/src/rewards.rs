//! The reward computation: from the collected entries of a period to one reward entry
//! per eligible address.
//!
//! Staking rewards are split by the latest debt share that an address recorded within the
//! period, fee rewards by the pool fees of the exchanges that it made within the period.
//! Addresses on the exclusion list, and addresses that have already claimed the period's
//! reward, have no weight. What a period could hand to nobody is carried into the next.

use vstd::prelude::*;
use crate::address::{Address, Rank};
use crate::config::{RewardConfig, scheduled_reward};
use crate::fees::{Window, accumulate_fees, pooled_fees};
use crate::graphql::{DebtEntry, ExchangeEntry, PerpFeeEntry, RewardClaim};
use crate::shares::{
    RewardError,
    distribute,
    lemma_shares_conserve,
    share,
    share_total,
    sum,
    values,
};
use crate::uint::{U256, u256_limit};
use crate::weights::{
    AddressWeights,
    addresses,
    ascending,
    collect_weights,
    fee_weight,
    fee_weights,
    has_weight,
    is_weight_table,
    lemma_blocked_weightless,
    lemma_weight_table_unique,
    staking_weight,
    staking_weights,
    total_fee_weight,
};
use crate::worker::{RewardComposition, WorkerConfig};

verus! {

/// A settlement period.
#[derive(Clone, Copy, Debug, PartialEq, Eq, Structural)]
pub struct Period {
    pub period_id: u32,
    pub start_time: u64,
    pub duration: u64,
}

/// What was collected for a period.
#[derive(Clone, Debug, PartialEq, Eq)]
pub struct PeriodData {
    pub debt_entries: Vec<DebtEntry>,
    pub exchange_entries: Vec<ExchangeEntry>,
    pub perp_fee_entries: Vec<PerpFeeEntry>,
    pub reward_claims: Vec<RewardClaim>,
}

/// One recipient's rewards for one period.
#[derive(Clone, Copy, Debug, PartialEq, Eq)]
pub struct RewardEntry {
    pub chain_id: u64,
    pub period_id: u32,
    pub recipient: Address,
    pub staking_reward: U256,
    pub fee_reward: U256,
}

/// The rewards of a period: the entries in ascending order of recipient, where the
/// amounts come from, and the weights by which they were split.
#[derive(Clone, Debug, PartialEq, Eq)]
pub struct RewardDistribution {
    pub entries: Vec<RewardEntry>,
    pub composition: RewardComposition,
    pub weights: Vec<AddressWeights>,
}

impl RewardEntry {
    /// How the entry stands to another in the canonical order, which is that of the
    /// recipients.
    pub fn rank(&self, other: &RewardEntry) -> (r: Rank)
        ensures
            (r == Rank::Below) == (self.recipient.key() < other.recipient.key()),
            (r == Rank::Same) == (self.recipient == other.recipient),
            (r == Rank::Above) == (self.recipient.key() > other.recipient.key()),
    {
        self.recipient.rank(&other.recipient)
    }
}

impl Period {
    /// A period is well formed where the periods before it start at or after the epoch
    /// and its own end is a time that 64 bits hold.
    pub open spec fn wf(self) -> bool {
        &&& self.period_id * self.duration <= self.start_time
        &&& self.start_time + self.duration <= u64::MAX
    }

    /// When period `q` of the same schedule starts.
    pub open spec fn start_of(self, q: int) -> int {
        self.start_time - (self.period_id - q) * self.duration
    }

    /// The span of period `q` of the same schedule.
    pub open spec fn window_of(self, q: int) -> Window {
        Window { start: self.start_of(q) as u64, end: (self.start_of(q) + self.duration) as u64 }
    }

    /// The span of the period itself.
    pub open spec fn window(self) -> Window {
        Window { start: self.start_time, end: (self.start_time + self.duration) as u64 }
    }

    /// The period's own span is that of its id.
    pub proof fn lemma_own_window(self)
        ensures
            self.window_of(self.period_id as int) == self.window(),
    {
        assert((self.period_id - self.period_id) * self.duration == 0) by (nonlinear_arith);
    }

    /// Periods follow one another without a gap, and none up to this one starts after it.
    pub proof fn lemma_start_step(self, q: int)
        requires
            self.wf(),
            0 <= q <= self.period_id,
        ensures
            self.start_of(q + 1) == self.start_of(q) + self.duration,
            0 <= self.start_of(q) <= self.start_time,
    {
        let d = self.duration as int;
        let id = self.period_id as int;
        assert((id - (q + 1)) * d + d == (id - q) * d) by (nonlinear_arith);
        assert(0 <= (id - q) * d <= id * d) by (nonlinear_arith)
            requires
                0 <= q <= id,
                0 <= d,
        ;
    }

    /// The period with the given id in the schedule of `config`, or `None` where its end
    /// is no time that 64 bits hold.
    pub fn resolve(config: &WorkerConfig, period_id: u32) -> (r: Option<Period>)
        ensures
            r.is_some() == (config.first_period_start_time + (period_id + 1)
                * config.period_duration <= u64::MAX),
            r matches Some(p) ==> {
                &&& p.wf()
                &&& p.period_id == period_id
                &&& p.duration == config.period_duration
                &&& p.start_time == config.first_period_start_time + period_id
                    * config.period_duration
            },
    {
        let id = period_id as u128;
        let d = config.period_duration as u128;
        assert(id * d <= 0xffff_ffff * 0xffff_ffff_ffff_ffff) by (nonlinear_arith)
            requires
                id <= 0xffff_ffff,
                d <= 0xffff_ffff_ffff_ffff,
        ;
        assert((period_id + 1) * config.period_duration == id * d + d) by (nonlinear_arith)
            requires
                id == period_id,
                d == config.period_duration,
        ;
        let start = config.first_period_start_time as u128 + id * d;
        let end = start + d;
        if end > u64::MAX as u128 {
            None
        } else {
            Some(Period { period_id, start_time: start as u64, duration: config.period_duration })
        }
    }
}

/// Why there is no period to settle.
#[derive(Clone, Copy, Debug, PartialEq, Eq, Structural)]
pub enum PeriodError {
    /// The last period has the largest id there is.
    NoSuccessor,
    /// The end of the period is no time that 64 bits hold.
    OffTheClock,
    /// The period has not ended.
    NotEnded,
}

impl Period {
    /// When the period ends.
    pub open spec fn end_time(self) -> int {
        self.start_time + self.duration
    }

    /// Whether the period has ended at the time `now`.
    pub fn has_ended(&self, now: u64) -> (r: bool)
        requires
            self.wf(),
        ensures
            r == (self.end_time() <= now),
    {
        self.start_time + self.duration <= now
    }

    /// The period to settle at the time `now`: the one after the last period, once it has
    /// ended.
    pub fn next_to_settle(config: &WorkerConfig, last_period_id: u32, now: u64) -> (r: Result<
        Period,
        PeriodError,
    >)
        ensures
            r == if last_period_id == u32::MAX {
                Err::<Period, PeriodError>(PeriodError::NoSuccessor)
            } else if config.first_period_start_time + (last_period_id + 2) * config.period_duration
                > u64::MAX {
                Err(PeriodError::OffTheClock)
            } else if config.first_period_start_time + (last_period_id + 2) * config.period_duration
                > now {
                Err(PeriodError::NotEnded)
            } else {
                Ok(
                    Period {
                        period_id: (last_period_id + 1) as u32,
                        start_time: (config.first_period_start_time + (last_period_id + 1)
                            * config.period_duration) as u64,
                        duration: config.period_duration,
                    },
                )
            },
            r matches Ok(p) ==> p.wf(),
    {
        if last_period_id == u32::MAX {
            return Err(PeriodError::NoSuccessor);
        }
        let period = match Period::resolve(config, last_period_id + 1) {
            Some(p) => p,
            None => {
                return Err(PeriodError::OffTheClock);
            },
        };
        assert((last_period_id + 2) * config.period_duration == (last_period_id + 1)
            * config.period_duration + config.period_duration) by (nonlinear_arith);
        if period.has_ended(now) {
            Ok(period)
        } else {
            Err(PeriodError::NotEnded)
        }
    }
}

/// The block as of which the data of a period is collected: the head of the chain less
/// the blocks that have to confirm it, and the first block where the chain is shorter.
pub fn anchor_block(head: u64, confirmation_blocks: u64) -> (r: u64)
    ensures
        r == if head >= confirmation_blocks {
            head - confirmation_blocks
        } else {
            0
        },
{
    if head >= confirmation_blocks {
        head - confirmation_blocks
    } else {
        0
    }
}

/// Whether some address that is not excluded has staking weight in period `q`.
pub open spec fn has_stakers(
    period: Period,
    data: PeriodData,
    config: RewardConfig,
    q: int,
) -> bool {
    exists|a: Address| #[trigger]
        staking_weight(data.debt_entries@, period.window_of(q), config.exclude_list@, a) > 0
}

/// Whether some address that is not excluded has fee weight in period `q`.
pub open spec fn has_fee_payers(
    period: Period,
    data: PeriodData,
    config: RewardConfig,
    q: int,
) -> bool {
    exists|a: Address| #[trigger]
        fee_weight(data.exchange_entries@, period.window_of(q), config.exclude_list@, a) > 0
}

/// The fees paid into the pool within period `q`.
pub open spec fn fees_in(period: Period, data: PeriodData, q: int) -> nat {
    pooled_fees(data.exchange_entries@, period.window_of(q)) + pooled_fees(
        data.perp_fee_entries@,
        period.window_of(q),
    )
}

/// The staking reward carried into period `q`: the staking reward of the period before,
/// where that period had nobody to hand it to.
pub open spec fn staking_rollover(
    period: Period,
    data: PeriodData,
    config: RewardConfig,
    q: int,
) -> nat
    decreases q,
{
    if q <= 0 {
        0
    } else if has_stakers(period, data, config, q - 1) {
        0
    } else {
        scheduled_reward(config.staking_reward_schedule@, q - 1) + staking_rollover(
            period,
            data,
            config,
            q - 1,
        )
    }
}

/// The fee reward carried into period `q`.
pub open spec fn fee_rollover(period: Period, data: PeriodData, config: RewardConfig, q: int) -> nat
    decreases q,
{
    if q <= 0 {
        0
    } else if has_fee_payers(period, data, config, q - 1) {
        0
    } else {
        fees_in(period, data, q - 1) + fee_rollover(period, data, config, q - 1)
    }
}

/// The staking reward of period `q`.
pub open spec fn staking_pool(
    period: Period,
    data: PeriodData,
    config: RewardConfig,
    q: int,
) -> nat {
    scheduled_reward(config.staking_reward_schedule@, q) + staking_rollover(period, data, config, q)
}

/// The fee reward of period `q`.
pub open spec fn fee_pool(period: Period, data: PeriodData, config: RewardConfig, q: int) -> nat {
    fees_in(period, data, q) + fee_rollover(period, data, config, q)
}

/// The staking rewards scheduled for the periods before `q`, added up.
pub open spec fn scheduled_before(config: RewardConfig, q: int) -> nat
    decreases q,
{
    if q <= 0 {
        0
    } else {
        scheduled_before(config, q - 1) + scheduled_reward(config.staking_reward_schedule@, q - 1)
    }
}

/// The staking rewards of the periods before `q` that had somebody to hand them to,
/// added up.
pub open spec fn handed_out_before(
    period: Period,
    data: PeriodData,
    config: RewardConfig,
    q: int,
) -> nat
    decreases q,
{
    if q <= 0 {
        0
    } else {
        handed_out_before(period, data, config, q - 1) + if has_stakers(
            period,
            data,
            config,
            q - 1,
        ) {
            staking_pool(period, data, config, q - 1)
        } else {
            0
        }
    }
}

/// The fees paid into the pool in the periods before `q`, added up.
pub open spec fn fees_before(period: Period, data: PeriodData, q: int) -> nat
    decreases q,
{
    if q <= 0 {
        0
    } else {
        fees_before(period, data, q - 1) + fees_in(period, data, q - 1)
    }
}

/// The fee rewards of the periods before `q` that had somebody to hand them to, added up.
pub open spec fn fees_handed_out_before(
    period: Period,
    data: PeriodData,
    config: RewardConfig,
    q: int,
) -> nat
    decreases q,
{
    if q <= 0 {
        0
    } else {
        fees_handed_out_before(period, data, config, q - 1) + if has_fee_payers(
            period,
            data,
            config,
            q - 1,
        ) {
            fee_pool(period, data, config, q - 1)
        } else {
            0
        }
    }
}

/// Carrying forward loses nothing and counts nothing twice: what was scheduled before a
/// period is what the periods before it handed out together with what is carried into it,
/// and the same holds of the fees.
pub proof fn lemma_rollover_accounts(period: Period, data: PeriodData, config: RewardConfig, q: int)
    requires
        0 <= q,
    ensures
        scheduled_before(config, q) == handed_out_before(period, data, config, q)
            + staking_rollover(period, data, config, q),
        fees_before(period, data, q) == fees_handed_out_before(period, data, config, q)
            + fee_rollover(period, data, config, q),
    decreases q,
{
    if q > 0 {
        lemma_rollover_accounts(period, data, config, q - 1);
    }
}

/// Whether the rewards of every period up to `q` fit in 256 bits.
pub open spec fn pools_fit(period: Period, data: PeriodData, config: RewardConfig, q: int) -> bool {
    forall|k: int|
        0 <= k <= q ==> #[trigger] staking_pool(period, data, config, k) < u256_limit()
            && fee_pool(period, data, config, k) < u256_limit()
}

/// Whether `c` is the composition of the period's rewards.
pub open spec fn is_composition(
    c: RewardComposition,
    period: Period,
    data: PeriodData,
    config: RewardConfig,
) -> bool {
    let q = period.period_id as int;
    &&& c.scheduled_staking_rewards.value() == scheduled_reward(config.staking_reward_schedule@, q)
    &&& c.rollover_staking_rewards.value() == staking_rollover(period, data, config, q)
    &&& c.fees_accumulated.value() == fees_in(period, data, q)
    &&& c.rollover_fees.value() == fee_rollover(period, data, config, q)
}

/// The fee weight of all addresses is part of the fees that the exchanges paid.
proof fn lemma_fee_weight_within_fees(
    exchanges: Seq<ExchangeEntry>,
    w: Window,
    blocked: Seq<Address>,
)
    ensures
        total_fee_weight(exchanges, w, blocked) <= pooled_fees(exchanges, w),
    decreases exchanges.len(),
{
    if exchanges.len() > 0 {
        lemma_fee_weight_within_fees(exchanges.drop_last(), w, blocked);
    }
}

/// The composition of a period from what was carried into it, or `None` where one of
/// its two totals needs more than 256 bits.
fn compose_one(
    data: &PeriodData,
    config: &RewardConfig,
    w: &Window,
    id: u32,
    staking_carry: U256,
    fee_carry: U256,
) -> (r: Option<RewardComposition>)
    ensures
        r.is_some() == (scheduled_reward(config.staking_reward_schedule@, id as int)
            + staking_carry.value() < u256_limit() && pooled_fees(data.exchange_entries@, *w)
            + pooled_fees(data.perp_fee_entries@, *w) + fee_carry.value() < u256_limit()),
        r matches Some(c) ==> {
            &&& c.scheduled_staking_rewards.value() == scheduled_reward(
                config.staking_reward_schedule@,
                id as int,
            )
            &&& c.rollover_staking_rewards == staking_carry
            &&& c.fees_accumulated.value() == pooled_fees(data.exchange_entries@, *w) + pooled_fees(
                data.perp_fee_entries@,
                *w,
            )
            &&& c.rollover_fees == fee_carry
        },
{
    let scheduled = config.scheduled_for(id);
    if scheduled.checked_add(&staking_carry).is_none() {
        return None;
    }
    let exchange_fees = match accumulate_fees(&data.exchange_entries, w) {
        Some(f) => f,
        None => {
            return None;
        },
    };
    let perp_fees = match accumulate_fees(&data.perp_fee_entries, w) {
        Some(f) => f,
        None => {
            return None;
        },
    };
    let fees = match exchange_fees.checked_add(&perp_fees) {
        Some(f) => f,
        None => {
            return None;
        },
    };
    if fees.checked_add(&fee_carry).is_none() {
        return None;
    }
    Some(
        RewardComposition {
            scheduled_staking_rewards: scheduled,
            rollover_staking_rewards: staking_carry,
            fees_accumulated: fees,
            rollover_fees: fee_carry,
        },
    )
}

/// Whether any entry of the table has staking weight, and whether any has fee weight.
fn weights_present(table: &Vec<AddressWeights>) -> (r: (bool, bool))
    ensures
        r.0 == exists|i: int|
            0 <= i < table@.len() && (#[trigger] table@[i]).staking_weight.value() > 0,
        r.1 == exists|i: int|
            0 <= i < table@.len() && (#[trigger] table@[i]).fee_weight.value() > 0,
{
    let mut staking = false;
    let mut fee = false;
    let mut i: usize = 0;
    while i < table.len()
        invariant
            i <= table.len(),
            staking == exists|k: int|
                0 <= k < i && (#[trigger] table@[k]).staking_weight.value() > 0,
            fee == exists|k: int| 0 <= k < i && (#[trigger] table@[k]).fee_weight.value() > 0,
        decreases table.len() - i,
    {
        if !table[i].staking_weight.is_zero() {
            staking = true;
        }
        if !table[i].fee_weight.is_zero() {
            fee = true;
        }
        i += 1;
    }
    (staking, fee)
}

/// A table of weights shows whether anybody has weight.
proof fn lemma_table_shows_holders(
    t: Seq<AddressWeights>,
    period: Period,
    data: PeriodData,
    config: RewardConfig,
    q: int,
)
    requires
        is_weight_table(
            t,
            data.debt_entries@,
            data.exchange_entries@,
            period.window_of(q),
            config.exclude_list@,
        ),
    ensures
        has_stakers(period, data, config, q) == exists|i: int|
            0 <= i < t.len() && (#[trigger] t[i]).staking_weight.value() > 0,
        has_fee_payers(period, data, config, q) == exists|i: int|
            0 <= i < t.len() && (#[trigger] t[i]).fee_weight.value() > 0,
{
    let w = period.window_of(q);
    let debts = data.debt_entries@;
    let exchanges = data.exchange_entries@;
    let blocked = config.exclude_list@;
    if has_stakers(period, data, config, q) {
        let a = choose|a: Address| #[trigger] staking_weight(debts, w, blocked, a) > 0;
        assert(has_weight(debts, exchanges, w, blocked, a));
        let i = choose|i: int| 0 <= i < addresses(t).len() && addresses(t)[i] == a;
        assert(t[i].address == a);
        assert(t[i].staking_weight.value() > 0);
    }
    if exists|i: int| 0 <= i < t.len() && (#[trigger] t[i]).staking_weight.value() > 0 {
        let i = choose|i: int| 0 <= i < t.len() && (#[trigger] t[i]).staking_weight.value() > 0;
        assert(staking_weight(debts, w, blocked, t[i].address) > 0);
    }
    if has_fee_payers(period, data, config, q) {
        let a = choose|a: Address| #[trigger] fee_weight(exchanges, w, blocked, a) > 0;
        assert(has_weight(debts, exchanges, w, blocked, a));
        let i = choose|i: int| 0 <= i < addresses(t).len() && addresses(t)[i] == a;
        assert(t[i].address == a);
        assert(t[i].fee_weight.value() > 0);
    }
    if exists|i: int| 0 <= i < t.len() && (#[trigger] t[i]).fee_weight.value() > 0 {
        let i = choose|i: int| 0 <= i < t.len() && (#[trigger] t[i]).fee_weight.value() > 0;
        assert(fee_weight(exchanges, w, blocked, t[i].address) > 0);
    }
}

/// Works out where the rewards of the period come from, going through the periods before
/// it to find what they carried forward.
///
/// It fails only where the staking reward or the fee reward of some period up to this one
/// needs more than 256 bits.
pub fn compose(period: &Period, data: &PeriodData, config: &RewardConfig) -> (r: Result<
    RewardComposition,
    RewardError,
>)
    requires
        period.wf(),
    ensures
        r.is_err() == !pools_fit(*period, *data, *config, period.period_id as int),
        r matches Ok(c) ==> is_composition(c, *period, *data, *config) && c.wf(),
{
    proof {
        period.lemma_start_step(0);
        assert(period.period_id * period.duration <= u64::MAX);
    }
    let mut start: u64 = period.start_time - (period.period_id as u64) * period.duration;
    let mut staking_carry = U256::zero();
    let mut fee_carry = U256::zero();
    let mut q: u32 = 0;
    while q < period.period_id
        invariant
            q <= period.period_id,
            period.wf(),
            start == period.start_of(q as int),
            staking_carry.value() == staking_rollover(*period, *data, *config, q as int),
            fee_carry.value() == fee_rollover(*period, *data, *config, q as int),
            pools_fit(*period, *data, *config, q as int - 1),
        decreases period.period_id - q,
    {
        proof {
            period.lemma_start_step(q as int);
            period.lemma_start_step(q as int + 1);
        }
        let w = Window { start, end: start + period.duration };
        assert(w == period.window_of(q as int));
        let c = match compose_one(data, config, &w, q, staking_carry, fee_carry) {
            Some(c) => c,
            None => {
                assert(!(staking_pool(*period, *data, *config, q as int) < u256_limit() && fee_pool(
                    *period,
                    *data,
                    *config,
                    q as int,
                ) < u256_limit()));
                return Err(RewardError::ArithmeticOverflow);
            },
        };
        proof {
            lemma_fee_weight_within_fees(data.exchange_entries@, w, config.exclude_list@);
        }
        let table = match collect_weights(
            &data.debt_entries,
            &data.exchange_entries,
            &w,
            &config.exclude_list,
        ) {
            Ok(t) => t,
            Err(e) => {
                return Err(e);
            },
        };
        proof {
            lemma_table_shows_holders(table@, *period, *data, *config, q as int);
        }
        let present = weights_present(&table);
        staking_carry = if present.0 {
            U256::zero()
        } else {
            c.staking_reward_for_period()
        };
        fee_carry = if present.1 {
            U256::zero()
        } else {
            c.fee_reward_for_period()
        };
        assert(pools_fit(*period, *data, *config, q as int)) by {
            assert forall|k: int| 0 <= k <= q implies #[trigger] staking_pool(
                *period,
                *data,
                *config,
                k,
            ) < u256_limit() && fee_pool(*period, *data, *config, k) < u256_limit() by {
                if k < q {
                    assert(staking_pool(*period, *data, *config, k) < u256_limit());
                }
            }
        }
        start = start + period.duration;
        q += 1;
    }
    proof {
        period.lemma_start_step(q as int);
    }
    let w = Window { start, end: start + period.duration };
    assert(w == period.window_of(q as int));
    match compose_one(data, config, &w, q, staking_carry, fee_carry) {
        Some(c) => {
            assert(pools_fit(*period, *data, *config, q as int)) by {
                assert forall|k: int| 0 <= k <= q implies #[trigger] staking_pool(
                    *period,
                    *data,
                    *config,
                    k,
                ) < u256_limit() && fee_pool(*period, *data, *config, k) < u256_limit() by {
                    if k < q {
                        assert(staking_pool(*period, *data, *config, k) < u256_limit());
                    }
                }
            }
            Ok(c)
        },
        None => {
            assert(!(staking_pool(*period, *data, *config, q as int) < u256_limit() && fee_pool(
                *period,
                *data,
                *config,
                q as int,
            ) < u256_limit()));
            Err(RewardError::ArithmeticOverflow)
        },
    }
}

/// The recipients of the claims on the rewards of period `id`, in the order of the claims.
pub open spec fn claimants(claims: Seq<RewardClaim>, id: u32) -> Seq<Address>
    decreases claims.len(),
{
    if claims.len() == 0 {
        Seq::empty()
    } else if claims.last().period_id == id {
        claimants(claims.drop_last(), id).push(claims.last().recipient)
    } else {
        claimants(claims.drop_last(), id)
    }
}

/// Whether `a` has claimed a reward of period `id`.
pub open spec fn has_claimed(claims: Seq<RewardClaim>, id: u32, a: Address) -> bool {
    exists|i: int|
        0 <= i < claims.len() && (#[trigger] claims[i]).period_id == id && claims[i].recipient == a
}

/// The claimants of a period are the addresses that have claimed its reward.
pub proof fn lemma_claimants(claims: Seq<RewardClaim>, id: u32, a: Address)
    ensures
        claimants(claims, id).contains(a) == has_claimed(claims, id, a),
    decreases claims.len(),
{
    if claims.len() > 0 {
        let rest = claims.drop_last();
        lemma_claimants(rest, id, a);
        if has_claimed(claims, id, a) {
            let i = choose|i: int|
                0 <= i < claims.len() && (#[trigger] claims[i]).period_id == id
                    && claims[i].recipient == a;
            if i < claims.len() - 1 {
                assert(rest[i] == claims[i]);
                assert(has_claimed(rest, id, a));
                let k = choose|k: int|
                    0 <= k < claimants(rest, id).len() && claimants(rest, id)[k] == a;
                assert(claimants(claims, id)[k] == a);
            } else {
                assert(claimants(claims, id).last() == a);
            }
        }
        if claimants(claims, id).contains(a) {
            let k = choose|k: int|
                0 <= k < claimants(claims, id).len() && claimants(claims, id)[k] == a;
            if k < claimants(rest, id).len() {
                assert(claimants(rest, id)[k] == a);
                assert(claimants(rest, id).contains(a));
                let i = choose|i: int|
                    0 <= i < rest.len() && (#[trigger] rest[i]).period_id == id
                        && rest[i].recipient == a;
                assert(claims[i] == rest[i]);
            } else {
                assert(claims[claims.len() - 1].recipient == a);
            }
        }
    }
}

/// The addresses without weight in the period: the exclusion list, then the claimants.
pub open spec fn blocked(period: Period, data: PeriodData, config: RewardConfig) -> Seq<Address> {
    config.exclude_list@ + claimants(data.reward_claims@, period.period_id)
}

/// The addresses without weight in the period.
pub fn blocked_addresses(period: &Period, data: &PeriodData, config: &RewardConfig) -> (r: Vec<
    Address,
>)
    ensures
        r@ == blocked(*period, *data, *config),
{
    let mut list: Vec<Address> = Vec::new();
    let mut i: usize = 0;
    while i < config.exclude_list.len()
        invariant
            i <= config.exclude_list.len(),
            list@ == config.exclude_list@.take(i as int),
        decreases config.exclude_list.len() - i,
    {
        list.push(config.exclude_list[i]);
        assert(list@ =~= config.exclude_list@.take(i as int + 1));
        i += 1;
    }
    assert(config.exclude_list@.take(i as int) =~= config.exclude_list@);
    let mut j: usize = 0;
    assert(data.reward_claims@.take(0) =~= Seq::<RewardClaim>::empty());
    assert(list@ =~= config.exclude_list@ + Seq::<Address>::empty());
    while j < data.reward_claims.len()
        invariant
            j <= data.reward_claims.len(),
            list@ == config.exclude_list@ + claimants(
                data.reward_claims@.take(j as int),
                period.period_id,
            ),
        decreases data.reward_claims.len() - j,
    {
        assert(data.reward_claims@.take(j as int + 1).drop_last() =~= data.reward_claims@.take(
            j as int,
        ));
        let ghost before = claimants(data.reward_claims@.take(j as int), period.period_id);
        if data.reward_claims[j].period_id == period.period_id {
            list.push(data.reward_claims[j].recipient);
            assert(list@ =~= config.exclude_list@ + before.push(
                data.reward_claims@[j as int].recipient,
            ));
        }
        j += 1;
    }
    assert(data.reward_claims@.take(j as int) =~= data.reward_claims@);
    list
}

/// Whether `d` is the distribution of the period's rewards: the table of weights of the
/// period, the composition of its rewards, and one entry per line of the table, with
/// that address's share of either reward.
pub open spec fn is_distribution(
    d: RewardDistribution,
    chain_id: u64,
    period: Period,
    data: PeriodData,
    config: RewardConfig,
) -> bool {
    let q = period.period_id as int;
    &&& is_weight_table(
        d.weights@,
        data.debt_entries@,
        data.exchange_entries@,
        period.window(),
        blocked(period, data, config),
    )
    &&& is_composition(d.composition, period, data, config)
    &&& d.entries@.len() == d.weights@.len()
    &&& forall|i: int|
        0 <= i < d.entries@.len() ==> {
            &&& (#[trigger] d.entries@[i]).chain_id == chain_id
            &&& d.entries@[i].period_id == period.period_id
            &&& d.entries@[i].recipient == d.weights@[i].address
            &&& d.entries@[i].staking_reward.value() == share(
                staking_pool(period, data, config, q),
                staking_weights(d.weights@),
                i,
            )
            &&& d.entries@[i].fee_reward.value() == share(
                fee_pool(period, data, config, q),
                fee_weights(d.weights@),
                i,
            )
        }
}

/// Whether the weights of the period's addresses fail to add up within 256 bits.
pub open spec fn weights_overflow(period: Period, data: PeriodData, config: RewardConfig) -> bool {
    ||| total_fee_weight(data.exchange_entries@, period.window(), blocked(period, data, config))
        >= u256_limit()
    ||| exists|t: Seq<AddressWeights>| #[trigger]
        is_weight_table(
            t,
            data.debt_entries@,
            data.exchange_entries@,
            period.window(),
            blocked(period, data, config),
        ) && (sum(staking_weights(t)) >= u256_limit() || sum(fee_weights(t)) >= u256_limit())
}

/// The staking weights and the fee weights of a table, each as a list of its own.
fn split_weights(table: &Vec<AddressWeights>) -> (r: (Vec<U256>, Vec<U256>))
    ensures
        values(r.0@) == staking_weights(table@),
        values(r.1@) == fee_weights(table@),
{
    let mut staking: Vec<U256> = Vec::new();
    let mut fee: Vec<U256> = Vec::new();
    let mut i: usize = 0;
    while i < table.len()
        invariant
            i <= table.len(),
            staking@.len() == i,
            fee@.len() == i,
            forall|k: int| 0 <= k < i ==> #[trigger] staking@[k] == table@[k].staking_weight,
            forall|k: int| 0 <= k < i ==> #[trigger] fee@[k] == table@[k].fee_weight,
        decreases table.len() - i,
    {
        staking.push(table[i].staking_weight);
        fee.push(table[i].fee_weight);
        i += 1;
    }
    assert(values(staking@) =~= staking_weights(table@));
    assert(values(fee@) =~= fee_weights(table@));
    (staking, fee)
}

/// Computes the rewards of a period.
///
/// The result holds one entry for every address that has staking weight or fee weight in
/// the period and is neither excluded nor a claimant of the period, in ascending order of
/// address. It fails only where a reward of some period up to this one, or the weights
/// of this period, need more than 256 bits.
pub fn compute_rewards(
    chain_id: u64,
    period: &Period,
    data: &PeriodData,
    config: &RewardConfig,
) -> (r: Result<RewardDistribution, RewardError>)
    requires
        period.wf(),
    ensures
        r.is_err() == (!pools_fit(*period, *data, *config, period.period_id as int)
            || weights_overflow(*period, *data, *config)),
        r matches Ok(d) ==> is_distribution(d, chain_id, *period, *data, *config),
{
    let composition = match compose(period, data, config) {
        Ok(c) => c,
        Err(e) => {
            return Err(e);
        },
    };
    let blocked_list = blocked_addresses(period, data, config);
    let w = Window { start: period.start_time, end: period.start_time + period.duration };
    assert(w == period.window());
    let table = match collect_weights(
        &data.debt_entries,
        &data.exchange_entries,
        &w,
        &blocked_list,
    ) {
        Ok(t) => t,
        Err(e) => {
            return Err(e);
        },
    };
    let (staking, fee) = split_weights(&table);
    let staking_pool_value = composition.staking_reward_for_period();
    let fee_pool_value = composition.fee_reward_for_period();
    let staking_shares = match distribute(&staking_pool_value, &staking) {
        Ok(s) => s,
        Err(e) => {
            return Err(e);
        },
    };
    let fee_shares = match distribute(&fee_pool_value, &fee) {
        Ok(s) => s,
        Err(e) => {
            return Err(e);
        },
    };
    proof {
        assert forall|t: Seq<AddressWeights>| #[trigger]
            is_weight_table(
                t,
                data.debt_entries@,
                data.exchange_entries@,
                period.window(),
                blocked(*period, *data, *config),
            ) implies !(sum(staking_weights(t)) >= u256_limit() || sum(fee_weights(t))
            >= u256_limit()) by {
            lemma_weight_table_unique(
                t,
                table@,
                data.debt_entries@,
                data.exchange_entries@,
                period.window(),
                blocked(*period, *data, *config),
            );
        }
    }
    let mut entries: Vec<RewardEntry> = Vec::new();
    let mut i: usize = 0;
    while i < table.len()
        invariant
            i <= table.len(),
            entries@.len() == i,
            staking_shares@.len() == table@.len(),
            fee_shares@.len() == table@.len(),
            forall|k: int|
                0 <= k < i ==> {
                    &&& (#[trigger] entries@[k]).chain_id == chain_id
                    &&& entries@[k].period_id == period.period_id
                    &&& entries@[k].recipient == table@[k].address
                    &&& entries@[k].staking_reward == staking_shares@[k]
                    &&& entries@[k].fee_reward == fee_shares@[k]
                },
        decreases table.len() - i,
    {
        entries.push(
            RewardEntry {
                chain_id,
                period_id: period.period_id,
                recipient: table[i].address,
                staking_reward: staking_shares[i],
                fee_reward: fee_shares[i],
            },
        );
        i += 1;
    }
    Ok(RewardDistribution { entries, composition, weights: table })
}

/// The staking rewards of the entries, added up.
pub open spec fn total_staking(entries: Seq<RewardEntry>) -> nat
    decreases entries.len(),
{
    if entries.len() == 0 {
        0
    } else {
        total_staking(entries.drop_last()) + entries.last().staking_reward.value()
    }
}

/// The fee rewards of the entries, added up.
pub open spec fn total_fees(entries: Seq<RewardEntry>) -> nat
    decreases entries.len(),
{
    if entries.len() == 0 {
        0
    } else {
        total_fees(entries.drop_last()) + entries.last().fee_reward.value()
    }
}

/// The rewards of the first `n` entries are the first `n` shares.
proof fn lemma_totals_are_shares(
    d: RewardDistribution,
    chain_id: u64,
    period: Period,
    data: PeriodData,
    config: RewardConfig,
    n: int,
)
    requires
        is_distribution(d, chain_id, period, data, config),
        0 <= n <= d.entries@.len(),
    ensures
        total_staking(d.entries@.take(n)) == share_total(
            staking_pool(period, data, config, period.period_id as int),
            staking_weights(d.weights@),
            n,
        ),
        total_fees(d.entries@.take(n)) == share_total(
            fee_pool(period, data, config, period.period_id as int),
            fee_weights(d.weights@),
            n,
        ),
    decreases n,
{
    if n > 0 {
        lemma_totals_are_shares(d, chain_id, period, data, config, n - 1);
        assert(d.entries@.take(n).drop_last() =~= d.entries@.take(n - 1));
        assert(d.entries@.take(n).last() == d.entries@[n - 1]);
    }
}

/// A table in which some entry has a positive weight has a positive sum of weights.
proof fn lemma_positive_entry_positive_sum(ws: Seq<nat>, i: int)
    requires
        0 <= i < ws.len(),
        ws[i] > 0,
    ensures
        sum(ws) > 0,
{
    crate::shares::lemma_sum_prefix(ws, i);
}

/// Conservation of staking rewards: where some address has staking weight in the period,
/// the staking rewards of the entries add up to the staking reward of the period.
pub proof fn lemma_staking_rewards_conserved(
    d: RewardDistribution,
    chain_id: u64,
    period: Period,
    data: PeriodData,
    config: RewardConfig,
    holder: Address,
)
    requires
        is_distribution(d, chain_id, period, data, config),
        staking_weight(
            data.debt_entries@,
            period.window(),
            blocked(period, data, config),
            holder,
        ) > 0,
    ensures
        total_staking(d.entries@) == d.composition.staking_total(),
{
    let t = d.weights@;
    let w = period.window();
    let b = blocked(period, data, config);
    assert(has_weight(data.debt_entries@, data.exchange_entries@, w, b, holder));
    let i = choose|i: int| 0 <= i < addresses(t).len() && addresses(t)[i] == holder;
    assert(t[i].address == holder);
    assert(staking_weights(t)[i] > 0);
    lemma_positive_entry_positive_sum(staking_weights(t), i);
    lemma_shares_conserve(
        staking_pool(period, data, config, period.period_id as int),
        staking_weights(t),
    );
    lemma_totals_are_shares(d, chain_id, period, data, config, d.entries@.len() as int);
    assert(d.entries@.take(d.entries@.len() as int) =~= d.entries@);
}

/// Conservation of fee rewards: where some address has fee weight in the period, the fee
/// rewards of the entries add up to the fee reward of the period.
pub proof fn lemma_fee_rewards_conserved(
    d: RewardDistribution,
    chain_id: u64,
    period: Period,
    data: PeriodData,
    config: RewardConfig,
    holder: Address,
)
    requires
        is_distribution(d, chain_id, period, data, config),
        fee_weight(
            data.exchange_entries@,
            period.window(),
            blocked(period, data, config),
            holder,
        ) > 0,
    ensures
        total_fees(d.entries@) == d.composition.fee_total(),
{
    let t = d.weights@;
    let w = period.window();
    let b = blocked(period, data, config);
    assert(has_weight(data.debt_entries@, data.exchange_entries@, w, b, holder));
    let i = choose|i: int| 0 <= i < addresses(t).len() && addresses(t)[i] == holder;
    assert(t[i].address == holder);
    assert(fee_weights(t)[i] > 0);
    lemma_positive_entry_positive_sum(fee_weights(t), i);
    lemma_shares_conserve(fee_pool(period, data, config, period.period_id as int), fee_weights(t));
    lemma_totals_are_shares(d, chain_id, period, data, config, d.entries@.len() as int);
    assert(d.entries@.take(d.entries@.len() as int) =~= d.entries@);
}

/// Exclusion: an address on the exclusion list is the recipient of no entry, whatever
/// debt or fees it has.
pub proof fn lemma_excluded_absent(
    d: RewardDistribution,
    chain_id: u64,
    period: Period,
    data: PeriodData,
    config: RewardConfig,
    a: Address,
)
    requires
        is_distribution(d, chain_id, period, data, config),
        config.exclude_list@.contains(a),
    ensures
        forall|i: int| 0 <= i < d.entries@.len() ==> (#[trigger] d.entries@[i]).recipient != a,
{
    let b = blocked(period, data, config);
    let k = choose|k: int| 0 <= k < config.exclude_list@.len() && config.exclude_list@[k] == a;
    assert(b[k] == a);
    lemma_blocked_weightless(data.debt_entries@, data.exchange_entries@, period.window(), b, a);
    assert forall|i: int| 0 <= i < d.entries@.len() implies (#[trigger] d.entries@[i]).recipient
        != a by {
        assert(has_weight(
            data.debt_entries@,
            data.exchange_entries@,
            period.window(),
            b,
            d.weights@[i].address,
        ));
    }
}

/// Prior claims: an address that has claimed a reward of the period is the recipient of
/// no entry of that period.
pub proof fn lemma_claimant_absent(
    d: RewardDistribution,
    chain_id: u64,
    period: Period,
    data: PeriodData,
    config: RewardConfig,
    a: Address,
)
    requires
        is_distribution(d, chain_id, period, data, config),
        has_claimed(data.reward_claims@, period.period_id, a),
    ensures
        forall|i: int| 0 <= i < d.entries@.len() ==> (#[trigger] d.entries@[i]).recipient != a,
{
    let b = blocked(period, data, config);
    let c = claimants(data.reward_claims@, period.period_id);
    lemma_claimants(data.reward_claims@, period.period_id, a);
    let k = choose|k: int| 0 <= k < c.len() && c[k] == a;
    assert(b[config.exclude_list@.len() + k] == a);
    lemma_blocked_weightless(data.debt_entries@, data.exchange_entries@, period.window(), b, a);
    assert forall|i: int| 0 <= i < d.entries@.len() implies (#[trigger] d.entries@[i]).recipient
        != a by {
        assert(has_weight(
            data.debt_entries@,
            data.exchange_entries@,
            period.window(),
            b,
            d.weights@[i].address,
        ));
    }
}

/// The recipients of the entries.
pub open spec fn recipients(entries: Seq<RewardEntry>) -> Seq<Address> {
    entries.map_values(|e: RewardEntry| e.recipient)
}

/// Canonical order: the entries of a distribution stand in strictly ascending order of
/// recipient, so no recipient has two.
pub proof fn lemma_entries_ascending(
    d: RewardDistribution,
    chain_id: u64,
    period: Period,
    data: PeriodData,
    config: RewardConfig,
)
    requires
        is_distribution(d, chain_id, period, data, config),
    ensures
        ascending(recipients(d.entries@)),
{
    assert(recipients(d.entries@) =~= addresses(d.weights@));
}

/// Determinism: two distributions of the same inputs have the same entries in the same
/// order, the same composition and the same weights.
pub proof fn lemma_distribution_unique(
    d1: RewardDistribution,
    d2: RewardDistribution,
    chain_id: u64,
    period: Period,
    data: PeriodData,
    config: RewardConfig,
)
    requires
        is_distribution(d1, chain_id, period, data, config),
        is_distribution(d2, chain_id, period, data, config),
    ensures
        d1.entries@ == d2.entries@,
        d1.weights@ == d2.weights@,
        d1.composition == d2.composition,
{
    lemma_weight_table_unique(
        d1.weights@,
        d2.weights@,
        data.debt_entries@,
        data.exchange_entries@,
        period.window(),
        blocked(period, data, config),
    );
    let c1 = d1.composition;
    let c2 = d2.composition;
    c1.scheduled_staking_rewards.lemma_value_injective(c2.scheduled_staking_rewards);
    c1.rollover_staking_rewards.lemma_value_injective(c2.rollover_staking_rewards);
    c1.fees_accumulated.lemma_value_injective(c2.fees_accumulated);
    c1.rollover_fees.lemma_value_injective(c2.rollover_fees);
    assert forall|i: int| 0 <= i < d1.entries@.len() implies d1.entries@[i] == d2.entries@[i] by {
        let e1 = d1.entries@[i];
        let e2 = d2.entries@[i];
        e1.staking_reward.lemma_value_injective(e2.staking_reward);
        e1.fee_reward.lemma_value_injective(e2.fee_reward);
    }
    assert(d1.entries@ =~= d2.entries@);
}

} // verus!
