use swarm_lib::network::{Action, NetworkSetup, Outcome, Phase};

#[test]
fn join_retries_until_success_then_polls() {
    let mut s = NetworkSetup::new();
    assert_eq!(s.phase(), Phase::Joining);
    assert_eq!(s.on_outcome(Outcome::JoinFailed), Action::RetryJoin { delay_ms: 2000 });
    assert_eq!(s.on_outcome(Outcome::JoinFailed), Action::RetryJoin { delay_ms: 2000 });
    assert_eq!(s.on_outcome(Outcome::JoinSucceeded), Action::PollAddress);
    assert_eq!(s.phase(), Phase::AwaitingAddress);
    assert_eq!(s.on_outcome(Outcome::AddressPending), Action::RepollAddress { delay_ms: 500 });
    assert_eq!(s.on_outcome(Outcome::AddressAssigned), Action::SignalReady);
    assert_eq!(s.phase(), Phase::Ready);
}

#[test]
fn ready_stays_ready() {
    let mut s = NetworkSetup::new();
    s.on_outcome(Outcome::JoinSucceeded);
    s.on_outcome(Outcome::AddressAssigned);
    for o in [
        Outcome::JoinFailed,
        Outcome::JoinSucceeded,
        Outcome::AddressPending,
        Outcome::AddressAssigned,
    ] {
        assert_eq!(s.on_outcome(o), Action::Finished);
        assert_eq!(s.phase(), Phase::Ready);
    }
}

#[test]
fn address_before_join_changes_nothing() {
    let mut s = NetworkSetup::new();
    assert_eq!(s.on_outcome(Outcome::AddressAssigned), Action::Join);
    assert_eq!(s.phase(), Phase::Joining);
    s.on_outcome(Outcome::JoinSucceeded);
    assert_eq!(s.on_outcome(Outcome::JoinFailed), Action::PollAddress);
    assert_eq!(s.phase(), Phase::AwaitingAddress);
}
