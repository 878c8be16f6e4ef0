//! Bringing the network up: join the Wi-Fi network, retrying until it
//! works, then wait for DHCP to assign an address and light the on-board
//! LED.
//!
//! The radio, the DHCP client and the timers are driven by the firmware;
//! this module decides what to do after each of their outcomes.

use vstd::prelude::*;

verus! {

/// Delay before trying to join again after a failed attempt.
pub const JOIN_RETRY_DELAY_MS: u64 = 2000;
/// Delay between two looks at whether DHCP has assigned an address.
pub const ADDRESS_POLL_DELAY_MS: u64 = 500;
/// The radio chip's GPIO that drives the on-board LED.
pub const LED_GPIO: u8 = 0;
/// Seed of the network stack's random number generator.
pub const STACK_SEED: u64 = 0x0123_4567_89ab_cdef;

/// How far the bring-up has come.
#[derive(Clone, Copy, PartialEq, Eq, Structural, Debug)]
pub enum Phase {
    /// Not associated with the access point yet.
    Joining,
    /// Associated; waiting for DHCP.
    AwaitingAddress,
    /// An address is assigned: the network is usable.
    Ready,
}

/// What the firmware saw after the last action.
#[derive(Clone, Copy, PartialEq, Eq, Structural, Debug)]
pub enum Outcome {
    JoinSucceeded,
    JoinFailed,
    AddressPending,
    AddressAssigned,
}

/// What the firmware does next.
#[derive(Clone, Copy, PartialEq, Eq, Structural, Debug)]
pub enum Action {
    /// Try to join the network now.
    Join,
    /// Wait `delay_ms`, then try to join again.
    RetryJoin { delay_ms: u64 },
    /// Look at the stack's IPv4 configuration now.
    PollAddress,
    /// Wait `delay_ms`, then look at the IPv4 configuration again.
    RepollAddress { delay_ms: u64 },
    /// Turn the LED on: the network is up.
    SignalReady,
    /// Nothing left to do.
    Finished,
}

/// The action a phase is waiting to have carried out.
pub open spec fn pending(phase: Phase) -> Action {
    match phase {
        Phase::Joining => Action::Join,
        Phase::AwaitingAddress => Action::PollAddress,
        Phase::Ready => Action::Finished,
    }
}

/// The bring-up's transition: the next phase and action for an outcome.
/// Outcomes that do not belong to the phase change nothing and ask again
/// for the phase's own action.
pub open spec fn advance(phase: Phase, outcome: Outcome) -> (Phase, Action) {
    match (phase, outcome) {
        (Phase::Joining, Outcome::JoinSucceeded) => (Phase::AwaitingAddress, Action::PollAddress),
        (Phase::Joining, Outcome::JoinFailed) => (
            Phase::Joining,
            Action::RetryJoin { delay_ms: JOIN_RETRY_DELAY_MS },
        ),
        (Phase::AwaitingAddress, Outcome::AddressAssigned) => (Phase::Ready, Action::SignalReady),
        (Phase::AwaitingAddress, Outcome::AddressPending) => (
            Phase::AwaitingAddress,
            Action::RepollAddress { delay_ms: ADDRESS_POLL_DELAY_MS },
        ),
        _ => (phase, pending(phase)),
    }
}

/// The phase after a run of outcomes.
pub open spec fn run(phase: Phase, outcomes: Seq<Outcome>) -> Phase
    decreases outcomes.len(),
{
    if outcomes.len() == 0 {
        phase
    } else {
        run(advance(phase, outcomes[0]).0, outcomes.drop_first())
    }
}

/// The bring-up's state.
pub struct NetworkSetup {
    phase: Phase,
}

impl NetworkSetup {
    /// How far the bring-up has come.
    pub closed spec fn phase_spec(&self) -> Phase {
        self.phase
    }

    /// A bring-up that has not joined yet; its first action is `Join`.
    pub fn new() -> (s: Self)
        ensures
            s.phase_spec() == Phase::Joining,
            pending(s.phase_spec()) == Action::Join,
    {
        NetworkSetup { phase: Phase::Joining }
    }

    /// How far the bring-up has come.
    pub fn phase(&self) -> (p: Phase)
        ensures
            p == self.phase_spec(),
    {
        self.phase
    }

    /// Takes in the outcome of the last action and says what to do next.
    pub fn on_outcome(&mut self, outcome: Outcome) -> (action: Action)
        ensures
            (final(self).phase_spec(), action) == advance(old(self).phase_spec(), outcome),
    {
        let (next, action) = match (self.phase, outcome) {
            (Phase::Joining, Outcome::JoinSucceeded) => (Phase::AwaitingAddress, Action::PollAddress),
            (Phase::Joining, Outcome::JoinFailed) => (
                Phase::Joining,
                Action::RetryJoin { delay_ms: JOIN_RETRY_DELAY_MS },
            ),
            (Phase::AwaitingAddress, Outcome::AddressAssigned) => (Phase::Ready, Action::SignalReady),
            (Phase::AwaitingAddress, Outcome::AddressPending) => (
                Phase::AwaitingAddress,
                Action::RepollAddress { delay_ms: ADDRESS_POLL_DELAY_MS },
            ),
            (Phase::Joining, _) => (Phase::Joining, Action::Join),
            (Phase::AwaitingAddress, _) => (Phase::AwaitingAddress, Action::PollAddress),
            (Phase::Ready, _) => (Phase::Ready, Action::Finished),
        };
        self.phase = next;
        action
    }
}

/// Once the network is ready it stays ready, whatever else is reported.
pub proof fn lemma_ready_is_final(outcomes: Seq<Outcome>)
    ensures
        run(Phase::Ready, outcomes) == Phase::Ready,
    decreases outcomes.len(),
{
    if outcomes.len() > 0 {
        lemma_ready_is_final(outcomes.drop_first());
    }
}

/// The LED is switched on exactly when the bring-up becomes ready.
pub proof fn lemma_signal_exactly_on_ready(phase: Phase, outcome: Outcome)
    ensures
        (advance(phase, outcome).1 == Action::SignalReady) <==> (phase != Phase::Ready
            && advance(phase, outcome).0 == Phase::Ready),
{
}

/// Failures never move the bring-up forward: a failed join keeps it
/// joining and is retried after two seconds, and a missing address keeps
/// it waiting and is looked for again after half a second.
pub proof fn lemma_failures_do_not_advance(phase: Phase)
    ensures
        advance(phase, Outcome::JoinFailed).0 == phase,
        advance(phase, Outcome::AddressPending).0 == phase,
        phase == Phase::Joining ==> (advance(phase, Outcome::JoinFailed).1 == (
        Action::RetryJoin { delay_ms: 2000 })),
        phase == Phase::AwaitingAddress ==> (advance(phase, Outcome::AddressPending).1 == (
        Action::RepollAddress { delay_ms: 500 })),
{
}

/// The network is ready only after a successful join followed by an
/// assigned address.
pub proof fn lemma_ready_needs_join_then_address(outcomes: Seq<Outcome>)
    requires
        run(Phase::Joining, outcomes) == Phase::Ready,
    ensures
        exists|i: int, j: int|
            0 <= i < j < outcomes.len() && outcomes[i] == Outcome::JoinSucceeded && outcomes[j]
                == Outcome::AddressAssigned,
{
    let i = lemma_first_join(outcomes);
    let rest = outcomes.subrange(i + 1, outcomes.len() as int);
    let j = lemma_first_address(rest);
    assert(outcomes[i + 1 + j] == rest[j]);
}

/// From `Joining`, a run that leaves it holds a successful join; the
/// result is its index, and the phase right after it is `AwaitingAddress`
/// with the rest of the run leading to the same phase.
proof fn lemma_first_join(outcomes: Seq<Outcome>) -> (i: int)
    requires
        run(Phase::Joining, outcomes) != Phase::Joining,
    ensures
        0 <= i < outcomes.len(),
        outcomes[i] == Outcome::JoinSucceeded,
        run(Phase::AwaitingAddress, outcomes.subrange(i + 1, outcomes.len() as int)) == run(
            Phase::Joining,
            outcomes,
        ),
    decreases outcomes.len(),
{
    let tail = outcomes.drop_first();
    if outcomes[0] == Outcome::JoinSucceeded {
        assert(tail =~= outcomes.subrange(1, outcomes.len() as int));
        0
    } else {
        let k = lemma_first_join(tail);
        assert(tail.subrange(k + 1, tail.len() as int) =~= outcomes.subrange(
            k + 2,
            outcomes.len() as int,
        ));
        k + 1
    }
}

/// From `AwaitingAddress`, a run that reaches `Ready` holds an assigned
/// address; the result is its index.
proof fn lemma_first_address(outcomes: Seq<Outcome>) -> (j: int)
    requires
        run(Phase::AwaitingAddress, outcomes) == Phase::Ready,
    ensures
        0 <= j < outcomes.len(),
        outcomes[j] == Outcome::AddressAssigned,
    decreases outcomes.len(),
{
    let tail = outcomes.drop_first();
    if outcomes[0] == Outcome::AddressAssigned {
        0
    } else {
        let k = lemma_first_address(tail);
        k + 1
    }
}

} // verus!
