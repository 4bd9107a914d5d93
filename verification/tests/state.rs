use clirelay_desktop_lib::service::state::ServiceEvent::{
    CleanupError, DisconnectExternal, HealthFailedThreeTimes, HealthRestored, PortOccupiedExternalConfirmed,
    ProcessExited, Ready, RestartRequested, StartRequested, StopCompleted, StopRequested, Timeout,
};
use clirelay_desktop_lib::service::state::ServiceStatus::{
    Error, External, Running, Starting, Stopped, Stopping, Unhealthy,
};
use clirelay_desktop_lib::service::state::{transition, ServiceEvent, ServiceStatus, StateTransitionError};

#[test]
fn allows_documented_state_transitions() {

    let cases = [
        (Stopped, StartRequested, Starting),
        (Starting, Ready, Running),
        (Starting, PortOccupiedExternalConfirmed, External),
        (Starting, Timeout, Error),
        (Starting, ProcessExited, Error),
        (Running, HealthFailedThreeTimes, Unhealthy),
        (Running, ProcessExited, Error),
        (Running, StopRequested, Stopping),
        (Unhealthy, HealthRestored, Running),
        (Unhealthy, RestartRequested, Stopping),
        (Unhealthy, ProcessExited, Error),
        (Stopping, StopCompleted, Stopped),
        (Stopping, Timeout, Error),
        (External, DisconnectExternal, Stopped),
        (External, ProcessExited, Stopped),
        (Error, RestartRequested, Starting),
        (Error, CleanupError, Stopped),
    ];

    for (status, event, expected) in cases {
        assert_eq!(transition(status, event), Ok(expected));
    }
}

#[test]
fn rejects_undocumented_state_transitions() {

    let cases = [
        (Starting, StopRequested),
        (External, StopRequested),
        (Stopped, StopRequested),
        (Running, StartRequested),
    ];

    for (status, event) in cases {
        assert!(matches!(
            transition(status.clone(), event.clone()),
            Err(StateTransitionError { .. })
        ));
    }
}

#[test]
fn refused_transition_hands_back_status_and_event() {
    assert_eq!(
        transition(ServiceStatus::Stopped, ServiceEvent::Ready),
        Err(StateTransitionError { status: ServiceStatus::Stopped, event: ServiceEvent::Ready })
    );
}

#[test]
fn every_status_has_an_exit_and_process_exit_never_runs() {
    let all_events = [
        StartRequested, Ready, PortOccupiedExternalConfirmed, Timeout, ProcessExited, StopRequested,
        StopCompleted, HealthFailedThreeTimes, HealthRestored, RestartRequested, DisconnectExternal,
        CleanupError,
    ];
    for status in [Stopped, Starting, Running, Stopping, Unhealthy, External, Error] {
        assert!(all_events.iter().any(|e| transition(status, *e).is_ok()));
        if let Ok(next) = transition(status, ProcessExited) {
            assert!(next == Error || next == Stopped);
        }
    }
}
