use proxide::supervisor::{
    supervisor_step, SupervisorAction, SupervisorEvent, SupervisorState,
};

const STATES: [SupervisorState; 4] = [
    SupervisorState::Starting,
    SupervisorState::Serving,
    SupervisorState::Draining,
    SupervisorState::Terminated,
];

const EVENTS: [SupervisorEvent; 4] = [
    SupervisorEvent::Ready,
    SupervisorEvent::StartFailed,
    SupervisorEvent::Shutdown,
    SupervisorEvent::Drained,
];

fn rank(state: SupervisorState) -> u8 {
    match state {
        SupervisorState::Starting => 0,
        SupervisorState::Serving => 1,
        SupervisorState::Draining => 2,
        SupervisorState::Terminated => 3,
    }
}

#[test]
fn route_serves_once_it_is_ready() {
    assert_eq!(
        supervisor_step(SupervisorState::Starting, SupervisorEvent::Ready, false),
        Some((SupervisorState::Serving, SupervisorAction::Serve))
    );
}

#[test]
fn route_that_fails_to_start_terminates() {
    for fired in [false, true] {
        assert_eq!(
            supervisor_step(SupervisorState::Starting, SupervisorEvent::StartFailed, fired),
            Some((SupervisorState::Terminated, SupervisorAction::Fail))
        );
    }
}

#[test]
fn late_starter_under_a_fired_signal_never_serves() {
    assert_eq!(
        supervisor_step(SupervisorState::Starting, SupervisorEvent::Ready, true),
        Some((SupervisorState::Terminated, SupervisorAction::Finish))
    );
    assert_eq!(
        supervisor_step(SupervisorState::Starting, SupervisorEvent::Shutdown, true),
        Some((SupervisorState::Terminated, SupervisorAction::Finish))
    );
}

#[test]
fn serving_route_drains_on_shutdown_and_terminates_when_drained() {
    assert_eq!(
        supervisor_step(SupervisorState::Serving, SupervisorEvent::Shutdown, true),
        Some((SupervisorState::Draining, SupervisorAction::StopAccepting))
    );
    assert_eq!(
        supervisor_step(SupervisorState::Draining, SupervisorEvent::Drained, true),
        Some((SupervisorState::Terminated, SupervisorAction::Finish))
    );
}

#[test]
fn serving_route_is_never_cut_off() {
    for event in EVENTS {
        for fired in [false, true] {
            if let Some((next, _)) = supervisor_step(SupervisorState::Serving, event, fired) {
                assert_ne!(next, SupervisorState::Terminated);
            }
        }
    }
}

#[test]
fn seeing_the_signal_again_changes_nothing() {
    assert_eq!(
        supervisor_step(SupervisorState::Draining, SupervisorEvent::Shutdown, true),
        Some((SupervisorState::Draining, SupervisorAction::Nothing))
    );
    assert_eq!(
        supervisor_step(SupervisorState::Terminated, SupervisorEvent::Shutdown, true),
        Some((SupervisorState::Terminated, SupervisorAction::Nothing))
    );
}

#[test]
fn events_that_are_not_awaited_are_refused_by_the_supervisor() {
    for fired in [false, true] {
        assert_eq!(supervisor_step(SupervisorState::Starting, SupervisorEvent::Drained, fired), None);
        assert_eq!(supervisor_step(SupervisorState::Serving, SupervisorEvent::Ready, fired), None);
        assert_eq!(supervisor_step(SupervisorState::Serving, SupervisorEvent::StartFailed, fired), None);
        assert_eq!(supervisor_step(SupervisorState::Serving, SupervisorEvent::Drained, fired), None);
        assert_eq!(supervisor_step(SupervisorState::Draining, SupervisorEvent::Ready, fired), None);
        assert_eq!(supervisor_step(SupervisorState::Draining, SupervisorEvent::StartFailed, fired), None);
        assert_eq!(supervisor_step(SupervisorState::Terminated, SupervisorEvent::Ready, fired), None);
        assert_eq!(supervisor_step(SupervisorState::Terminated, SupervisorEvent::StartFailed, fired), None);
        assert_eq!(supervisor_step(SupervisorState::Terminated, SupervisorEvent::Drained, fired), None);
    }
}

#[test]
fn supervisor_never_goes_back() {
    for state in STATES {
        for event in EVENTS {
            for fired in [false, true] {
                if let Some((next, _)) = supervisor_step(state, event, fired) {
                    assert!(rank(state) <= rank(next));
                }
            }
        }
    }
}

#[test]
fn terminated_state_is_reported_as_such() {
    assert!(SupervisorState::Terminated.is_terminated());
    assert!(!SupervisorState::Starting.is_terminated());
    assert!(!SupervisorState::Serving.is_terminated());
    assert!(!SupervisorState::Draining.is_terminated());
}
