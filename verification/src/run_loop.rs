//! The order of the work of one node: what follows what, and what follows a failure.
//!
//! The loop decides; its caller does the work of each stage and reports how it ended.

use vstd::prelude::*;

verus! {

/// The stages of one iteration.
#[derive(Clone, Copy, Debug, PartialEq, Eq, Structural)]
pub enum Stage {
    /// Find the period to settle.
    ResolvePeriod,
    /// Collect the entries of the period.
    Collect,
    /// Compute the rewards.
    Compute,
    /// Sign the reward entries.
    Sign,
    /// Hand the attestation to the coordination service.
    Stage,
    /// Ask the coordination service to publish the rewards.
    Publish,
    /// Wait for the next iteration.
    Idle,
}

/// How the work of a stage ended.
#[derive(Clone, Copy, Debug, PartialEq, Eq, Structural)]
pub enum Outcome {
    Succeeded,
    Failed,
}

/// The state of the loop of a node.
#[derive(Clone, Copy, Debug, PartialEq, Eq, Structural)]
pub struct RunLoop {
    pub leader: bool,
    pub stage: Stage,
}

/// The stage that follows `stage`. A failure ends the iteration. Waiting is followed by
/// a new iteration however it ended. Only a leader publishes.
pub open spec fn next_stage(leader: bool, stage: Stage, outcome: Outcome) -> Stage {
    match stage {
        Stage::Idle => Stage::ResolvePeriod,
        _ => match outcome {
            Outcome::Failed => Stage::Idle,
            Outcome::Succeeded => match stage {
                Stage::ResolvePeriod => Stage::Collect,
                Stage::Collect => Stage::Compute,
                Stage::Compute => Stage::Sign,
                Stage::Sign => Stage::Stage,
                Stage::Stage => if leader {
                    Stage::Publish
                } else {
                    Stage::Idle
                },
                Stage::Publish => Stage::Idle,
                Stage::Idle => Stage::ResolvePeriod,
            },
        },
    }
}

impl RunLoop {
    /// The loop of a node before its first iteration.
    pub fn new(leader: bool) -> (r: RunLoop)
        ensures
            r == (RunLoop { leader, stage: Stage::ResolvePeriod }),
    {
        RunLoop { leader, stage: Stage::ResolvePeriod }
    }

    /// Takes how the work of the current stage ended and moves to the stage that follows,
    /// which it returns.
    pub fn step(&mut self, outcome: Outcome) -> (next: Stage)
        ensures
            next == next_stage(old(self).leader, old(self).stage, outcome),
            *final(self) == (RunLoop { leader: old(self).leader, stage: next }),
    {
        let next = match self.stage {
            Stage::Idle => Stage::ResolvePeriod,
            stage => match outcome {
                Outcome::Failed => Stage::Idle,
                Outcome::Succeeded => match stage {
                    Stage::ResolvePeriod => Stage::Collect,
                    Stage::Collect => Stage::Compute,
                    Stage::Compute => Stage::Sign,
                    Stage::Sign => Stage::Stage,
                    Stage::Stage => if self.leader {
                        Stage::Publish
                    } else {
                        Stage::Idle
                    },
                    Stage::Publish => Stage::Idle,
                    Stage::Idle => Stage::ResolvePeriod,
                },
            },
        };
        self.stage = next;
        next
    }
}

/// Publication is attempted only by a leader, and only after its attestation was staged.
pub proof fn lemma_only_leader_publishes(leader: bool, stage: Stage, outcome: Outcome)
    ensures
        next_stage(leader, stage, outcome) == Stage::Publish <==> leader && stage == Stage::Stage
            && outcome == Outcome::Succeeded,
{
}

/// A failure at any stage ends the iteration, and the next one starts from the beginning.
pub proof fn lemma_failure_restarts(leader: bool, stage: Stage, outcome: Outcome)
    requires
        stage != Stage::Idle,
    ensures
        next_stage(leader, stage, Outcome::Failed) == Stage::Idle,
        next_stage(leader, Stage::Idle, outcome) == Stage::ResolvePeriod,
{
}

/// Up to the staging a leader and any other node do the same work in the same order.
pub proof fn lemma_same_work_until_staged(stage: Stage, outcome: Outcome)
    requires
        stage != Stage::Stage,
    ensures
        next_stage(true, stage, outcome) == next_stage(false, stage, outcome),
{
}

} // verus!
