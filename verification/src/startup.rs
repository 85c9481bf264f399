//! The order in which the server is set up, and which failures it survives.

use vstd::prelude::*;

verus! {

/// A step on the way to a listening server.
#[derive(Clone, Copy, Debug, PartialEq, Eq, Structural)]
pub enum StartupStep {
    CreateSocket,
    SetKeepalive,
    ParseAddress,
    Bind,
    CreatePoll,
    RegisterListener,
}

/// What follows a step.
#[derive(Clone, Copy, Debug, PartialEq, Eq, Structural)]
pub enum StartupOutcome {
    /// Another step.
    Perform(StartupStep),
    /// The server is ready for clients.
    Listen,
    /// The server cannot be started.
    Abort,
}

impl StartupStep {
    /// Whether the server cannot do without the step.
    pub open spec fn is_essential(self) -> bool {
        match self {
            StartupStep::CreateSocket => true,
            StartupStep::SetKeepalive => false,
            StartupStep::ParseAddress => true,
            StartupStep::Bind => true,
            StartupStep::CreatePoll => true,
            StartupStep::RegisterListener => false,
        }
    }

    /// What comes next if the step does not stop the startup.
    pub open spec fn following(self) -> StartupOutcome {
        match self {
            StartupStep::CreateSocket => StartupOutcome::Perform(StartupStep::SetKeepalive),
            StartupStep::SetKeepalive => StartupOutcome::Perform(StartupStep::ParseAddress),
            StartupStep::ParseAddress => StartupOutcome::Perform(StartupStep::Bind),
            StartupStep::Bind => StartupOutcome::Perform(StartupStep::CreatePoll),
            StartupStep::CreatePoll => StartupOutcome::Perform(StartupStep::RegisterListener),
            StartupStep::RegisterListener => StartupOutcome::Listen,
        }
    }

    /// What follows the step.
    pub open spec fn outcome(self, succeeded: bool) -> StartupOutcome {
        if !succeeded && self.is_essential() {
            StartupOutcome::Abort
        } else {
            self.following()
        }
    }

    /// The step to begin with.
    pub fn first() -> (step: StartupStep)
        ensures
            step == StartupStep::CreateSocket,
    {
        StartupStep::CreateSocket
    }

    /// Tells what follows the step, given whether it succeeded.
    pub fn follow(self, succeeded: bool) -> (outcome: StartupOutcome)
        ensures
            outcome == self.outcome(succeeded),
            outcome == StartupOutcome::Abort <==> !succeeded && self != StartupStep::SetKeepalive
                && self != StartupStep::RegisterListener,
            outcome != StartupOutcome::Abort ==> match self {
                StartupStep::CreateSocket => outcome == StartupOutcome::Perform(
                    StartupStep::SetKeepalive,
                ),
                StartupStep::SetKeepalive => outcome == StartupOutcome::Perform(
                    StartupStep::ParseAddress,
                ),
                StartupStep::ParseAddress => outcome == StartupOutcome::Perform(StartupStep::Bind),
                StartupStep::Bind => outcome == StartupOutcome::Perform(StartupStep::CreatePoll),
                StartupStep::CreatePoll => outcome == StartupOutcome::Perform(
                    StartupStep::RegisterListener,
                ),
                StartupStep::RegisterListener => outcome == StartupOutcome::Listen,
            },
    {
        match self {
            StartupStep::CreateSocket => if succeeded {
                StartupOutcome::Perform(StartupStep::SetKeepalive)
            } else {
                StartupOutcome::Abort
            },
            StartupStep::SetKeepalive => StartupOutcome::Perform(StartupStep::ParseAddress),
            StartupStep::ParseAddress => if succeeded {
                StartupOutcome::Perform(StartupStep::Bind)
            } else {
                StartupOutcome::Abort
            },
            StartupStep::Bind => if succeeded {
                StartupOutcome::Perform(StartupStep::CreatePoll)
            } else {
                StartupOutcome::Abort
            },
            StartupStep::CreatePoll => if succeeded {
                StartupOutcome::Perform(StartupStep::RegisterListener)
            } else {
                StartupOutcome::Abort
            },
            StartupStep::RegisterListener => StartupOutcome::Listen,
        }
    }
}

/// What a startup comes to, from `step` on, when the steps from there on succeed or
/// fail as `results` says.
pub open spec fn startup(step: StartupStep, results: Seq<bool>) -> StartupOutcome
    decreases results.len(),
{
    if results.len() == 0 {
        StartupOutcome::Perform(step)
    } else {
        match step.outcome(results.first()) {
            StartupOutcome::Perform(following) => startup(following, results.drop_first()),
            ended => ended,
        }
    }
}

/// The steps come in the order in which each has what it needs: the socket before its
/// keepalive, the address before the binding, the listener and the poll before the
/// registration.  As long as no essential step has failed, the startup goes on.
pub proof fn steps_come_in_order(results: Seq<bool>)
    requires
        results.len() < 6,
        results.len() > 0 ==> results[0],
        results.len() > 2 ==> results[2],
        results.len() > 3 ==> results[3],
        results.len() > 4 ==> results[4],
    ensures
        startup(StartupStep::CreateSocket, results) == StartupOutcome::Perform(
            seq![
                StartupStep::CreateSocket,
                StartupStep::SetKeepalive,
                StartupStep::ParseAddress,
                StartupStep::Bind,
                StartupStep::CreatePoll,
                StartupStep::RegisterListener,
            ][results.len() as int],
        ),
{
    reveal_with_fuel(startup, 7);
}

/// An essential step that fails stops the startup there and then, whatever the other
/// steps would have come to.
pub proof fn essential_failures_stop_the_startup(results: Seq<bool>, failed: int)
    requires
        0 <= failed < results.len() <= 6,
        failed == 0 || failed == 2 || failed == 3 || failed == 4,
        !results[failed],
    ensures
        startup(StartupStep::CreateSocket, results) == StartupOutcome::Abort,
{
    reveal_with_fuel(startup, 7);
}

/// A startup, which begins with the socket and takes six steps, ends with a listening
/// server exactly if the socket, the address, the binding and the poll succeed.  The
/// other two steps, the keepalive and the registration of the listener, may fail.
pub proof fn starts_if_essentials_succeed(results: Seq<bool>)
    requires
        results.len() == 6,
    ensures
        startup(StartupStep::CreateSocket, results) == (if results[0] && results[2] && results[3]
            && results[4] {
            StartupOutcome::Listen
        } else {
            StartupOutcome::Abort
        }),
{
    reveal_with_fuel(startup, 7);
}

} // verus!
