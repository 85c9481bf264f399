use uttt_matchmaking::startup::{StartupOutcome, StartupStep};

/// Performs a whole startup in which the steps succeed or fail as given.
fn start(results: [bool; 6]) -> StartupOutcome {
    let mut step = StartupStep::first();
    for succeeded in results {
        match step.follow(succeeded) {
            StartupOutcome::Perform(following) => step = following,
            ended => return ended,
        }
    }
    StartupOutcome::Perform(step)
}

#[test]
fn steps_come_in_order() {
    let steps = [
        StartupStep::CreateSocket,
        StartupStep::SetKeepalive,
        StartupStep::ParseAddress,
        StartupStep::Bind,
        StartupStep::CreatePoll,
        StartupStep::RegisterListener,
    ];
    for i in 0..5 {
        assert_eq!(steps[i].follow(true), StartupOutcome::Perform(steps[i + 1]));
    }
    assert_eq!(steps[5].follow(true), StartupOutcome::Listen);
}

#[test]
fn startup_survives_two_failures_only() {
    assert_eq!(start([true; 6]), StartupOutcome::Listen);
    for failing in 0..6 {
        let mut results = [true; 6];
        results[failing] = false;
        let expected = if failing == 1 || failing == 5 {
            StartupOutcome::Listen
        } else {
            StartupOutcome::Abort
        };
        assert_eq!(start(results), expected);
    }
    assert_eq!(start([true, false, true, true, true, false]), StartupOutcome::Listen);
}
