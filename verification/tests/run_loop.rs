use reward_oracle::run_loop::{Outcome, RunLoop, Stage};

fn iteration(leader: bool) -> Vec<Stage> {
    let mut l = RunLoop::new(leader);
    let mut stages = vec![l.stage];
    loop {
        let next = l.step(Outcome::Succeeded);
        assert_eq!(next, l.stage);
        stages.push(next);
        if next == Stage::ResolvePeriod {
            return stages;
        }
    }
}

#[test]
fn leader_publishes_after_staging() {
    assert_eq!(
        iteration(true),
        vec![
            Stage::ResolvePeriod,
            Stage::Collect,
            Stage::Compute,
            Stage::Sign,
            Stage::Stage,
            Stage::Publish,
            Stage::Idle,
            Stage::ResolvePeriod
        ]
    );
}

#[test]
fn other_nodes_stage_only() {
    assert_eq!(
        iteration(false),
        vec![
            Stage::ResolvePeriod,
            Stage::Collect,
            Stage::Compute,
            Stage::Sign,
            Stage::Stage,
            Stage::Idle,
            Stage::ResolvePeriod
        ]
    );
}

#[test]
fn failure_at_any_stage_ends_the_iteration() {
    for leader in [true, false] {
        for stage in
            [Stage::ResolvePeriod, Stage::Collect, Stage::Compute, Stage::Sign, Stage::Stage, Stage::Publish]
        {
            let mut l = RunLoop { leader, stage };
            assert_eq!(l.step(Outcome::Failed), Stage::Idle);
            assert_eq!(l, RunLoop { leader, stage: Stage::Idle });
            assert_eq!(l.step(Outcome::Failed), Stage::ResolvePeriod);
        }
    }
}

#[test]
fn loop_goes_on_after_waiting() {
    let mut l = RunLoop { leader: false, stage: Stage::Idle };
    assert_eq!(l.step(Outcome::Succeeded), Stage::ResolvePeriod);
    assert_eq!(l.step(Outcome::Succeeded), Stage::Collect);
    assert!(!l.leader);
}
