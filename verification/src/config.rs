//! The reward configuration that every signer node shares.

use vstd::prelude::*;
use crate::address::Address;
use crate::hexcode::{hex_bytes, hex_decode, is_hex_text, trim_leading_0x, without_leading_0x};
use crate::uint::U256;

verus! {

/// The amount of staking reward that is scheduled for one period.
#[derive(Clone, Debug, PartialEq, Eq)]
pub struct ScheduledReward {
    pub period_id: u32,
    pub reward: U256,
}

/// The reward configuration: who never receives rewards, and what is scheduled when.
#[derive(Clone, Debug, PartialEq, Eq)]
pub struct RewardConfig {
    pub has_legacy_chain: bool,
    pub exclude_list: Vec<Address>,
    pub staking_reward_schedule: Vec<ScheduledReward>,
}

/// The staking reward that `schedule` holds for period `q`: that of the last entry for the
/// period, and zero where there is none.
pub open spec fn scheduled_reward(schedule: Seq<ScheduledReward>, q: int) -> nat
    decreases schedule.len(),
{
    if schedule.len() == 0 {
        0
    } else if schedule.last().period_id == q {
        schedule.last().reward.value()
    } else {
        scheduled_reward(schedule.drop_last(), q)
    }
}

impl RewardConfig {
    /// The staking reward scheduled for `period_id`.
    pub fn scheduled_for(&self, period_id: u32) -> (r: U256)
        ensures
            r.value() == scheduled_reward(self.staking_reward_schedule@, period_id as int),
    {
        let mut found = U256::zero();
        let mut i: usize = 0;
        assert(self.staking_reward_schedule@.take(0) =~= Seq::<ScheduledReward>::empty());
        while i < self.staking_reward_schedule.len()
            invariant
                i <= self.staking_reward_schedule.len(),
                found.value() == scheduled_reward(
                    self.staking_reward_schedule@.take(i as int),
                    period_id as int,
                ),
            decreases self.staking_reward_schedule.len() - i,
        {
            assert(self.staking_reward_schedule@.take(i as int + 1).drop_last()
                =~= self.staking_reward_schedule@.take(i as int));
            if self.staking_reward_schedule[i].period_id == period_id {
                found = self.staking_reward_schedule[i].reward;
            }
            i += 1;
        }
        assert(self.staking_reward_schedule@.take(i as int) =~= self.staking_reward_schedule@);
        found
    }
}

/// Why a text is no SHA-256 checksum.
#[derive(Clone, Copy, Debug, PartialEq, Eq, Structural)]
pub enum ChecksumError {
    /// After its `0x` the text holds something other than pairs of hexadecimal digits.
    InvalidHex,
    /// The text stands for `length` bytes, not for 32.
    InvalidByteLength { length: usize },
}

/// Reads the checksum of the expected reward configuration: 64 hexadecimal digits, with
/// or without `0x` before them.
pub fn parse_sha256_sum(value: &str) -> (r: Result<[u8; 32], ChecksumError>)
    ensures
        match r {
            Ok(sum) => {
                &&& is_hex_text(without_leading_0x(value@))
                &&& without_leading_0x(value@).len() == 64
                &&& sum@ == hex_bytes(without_leading_0x(value@))
            },
            Err(ChecksumError::InvalidHex) => !is_hex_text(without_leading_0x(value@)),
            Err(ChecksumError::InvalidByteLength { length }) => {
                &&& is_hex_text(without_leading_0x(value@))
                &&& without_leading_0x(value@).len() != 64
                &&& length == without_leading_0x(value@).len() / 2
            },
        },
{
    let parsed_bytes = match hex_decode(trim_leading_0x(value)) {
        Ok(bytes) => bytes,
        Err(_) => {
            return Err(ChecksumError::InvalidHex);
        },
    };
    if parsed_bytes.len() != 32 {
        return Err(ChecksumError::InvalidByteLength { length: parsed_bytes.len() });
    }
    let mut buffer = [0u8; 32];
    let mut i: usize = 0;
    while i < 32
        invariant
            i <= 32,
            parsed_bytes@.len() == 32,
            forall|k: int| 0 <= k < i ==> buffer@[k] == parsed_bytes@[k],
        decreases 32 - i,
    {
        buffer[i] = parsed_bytes[i];
        i += 1;
    }
    assert(buffer@ =~= parsed_bytes@);
    Ok(buffer)
}

} // verus!
