//! The lifecycle of the supervised CliRelay service as a state machine.
use vstd::prelude::*;

verus! {

/// Where the supervised service is in its lifecycle.
#[derive(Clone, Copy, Debug, PartialEq, Eq, Structural)]
pub enum ServiceStatus {
    Stopped,
    Starting,
    Running,
    Stopping,
    Unhealthy,
    External,
    Error,
}

/// Something that happened to the service, fed to [`transition`].
#[derive(Clone, Copy, Debug, PartialEq, Eq, Structural)]
pub enum ServiceEvent {
    StartRequested,
    Ready,
    PortOccupiedExternalConfirmed,
    Timeout,
    ProcessExited,
    StopRequested,
    StopCompleted,
    HealthFailedThreeTimes,
    HealthRestored,
    RestartRequested,
    DisconnectExternal,
    CleanupError,
}

/// A refused transition: the status and the event that have no edge.
#[derive(Clone, Copy, Debug, PartialEq, Eq, Structural)]
pub struct StateTransitionError {
    pub status: ServiceStatus,
    pub event: ServiceEvent,
}

/// The documented transition graph: `Some(next)` for each edge, `None` otherwise.
pub open spec fn next_status(status: ServiceStatus, event: ServiceEvent) -> Option<ServiceStatus> {
    match (status, event) {
        (ServiceStatus::Stopped, ServiceEvent::StartRequested) => Some(ServiceStatus::Starting),
        (ServiceStatus::Starting, ServiceEvent::Ready) => Some(ServiceStatus::Running),
        (ServiceStatus::Starting, ServiceEvent::PortOccupiedExternalConfirmed) => Some(ServiceStatus::External),
        (ServiceStatus::Starting, ServiceEvent::Timeout) => Some(ServiceStatus::Error),
        (ServiceStatus::Starting, ServiceEvent::ProcessExited) => Some(ServiceStatus::Error),
        (ServiceStatus::Running, ServiceEvent::HealthFailedThreeTimes) => Some(ServiceStatus::Unhealthy),
        (ServiceStatus::Running, ServiceEvent::ProcessExited) => Some(ServiceStatus::Error),
        (ServiceStatus::Running, ServiceEvent::StopRequested) => Some(ServiceStatus::Stopping),
        (ServiceStatus::Unhealthy, ServiceEvent::HealthRestored) => Some(ServiceStatus::Running),
        (ServiceStatus::Unhealthy, ServiceEvent::RestartRequested) => Some(ServiceStatus::Stopping),
        (ServiceStatus::Unhealthy, ServiceEvent::ProcessExited) => Some(ServiceStatus::Error),
        (ServiceStatus::Stopping, ServiceEvent::StopCompleted) => Some(ServiceStatus::Stopped),
        (ServiceStatus::Stopping, ServiceEvent::Timeout) => Some(ServiceStatus::Error),
        (ServiceStatus::External, ServiceEvent::DisconnectExternal) => Some(ServiceStatus::Stopped),
        (ServiceStatus::External, ServiceEvent::ProcessExited) => Some(ServiceStatus::Stopped),
        (ServiceStatus::Error, ServiceEvent::RestartRequested) => Some(ServiceStatus::Starting),
        (ServiceStatus::Error, ServiceEvent::CleanupError) => Some(ServiceStatus::Stopped),
        _ => None,
    }
}

/// Applies `event` to `status`: the next status along the documented edge, or
/// an error that hands both inputs back when there is none.
pub fn transition(status: ServiceStatus, event: ServiceEvent) -> (r: Result<ServiceStatus, StateTransitionError>)
    ensures
        match next_status(status, event) {
            Some(next) => r == Ok::<ServiceStatus, StateTransitionError>(next),
            None => r == Err::<ServiceStatus, StateTransitionError>(StateTransitionError { status, event }),
        },
{
    let next = match (status, event) {
        (ServiceStatus::Stopped, ServiceEvent::StartRequested) => ServiceStatus::Starting,
        (ServiceStatus::Starting, ServiceEvent::Ready) => ServiceStatus::Running,
        (ServiceStatus::Starting, ServiceEvent::PortOccupiedExternalConfirmed) => ServiceStatus::External,
        (ServiceStatus::Starting, ServiceEvent::Timeout) => ServiceStatus::Error,
        (ServiceStatus::Starting, ServiceEvent::ProcessExited) => ServiceStatus::Error,
        (ServiceStatus::Running, ServiceEvent::HealthFailedThreeTimes) => ServiceStatus::Unhealthy,
        (ServiceStatus::Running, ServiceEvent::ProcessExited) => ServiceStatus::Error,
        (ServiceStatus::Running, ServiceEvent::StopRequested) => ServiceStatus::Stopping,
        (ServiceStatus::Unhealthy, ServiceEvent::HealthRestored) => ServiceStatus::Running,
        (ServiceStatus::Unhealthy, ServiceEvent::RestartRequested) => ServiceStatus::Stopping,
        (ServiceStatus::Unhealthy, ServiceEvent::ProcessExited) => ServiceStatus::Error,
        (ServiceStatus::Stopping, ServiceEvent::StopCompleted) => ServiceStatus::Stopped,
        (ServiceStatus::Stopping, ServiceEvent::Timeout) => ServiceStatus::Error,
        (ServiceStatus::External, ServiceEvent::DisconnectExternal) => ServiceStatus::Stopped,
        (ServiceStatus::External, ServiceEvent::ProcessExited) => ServiceStatus::Stopped,
        (ServiceStatus::Error, ServiceEvent::RestartRequested) => ServiceStatus::Starting,
        (ServiceStatus::Error, ServiceEvent::CleanupError) => ServiceStatus::Stopped,
        _ => {
            return Err(StateTransitionError { status, event });
        },
    };
    Ok(next)
}

/// Every status can be left: some event has an edge out of it.
pub proof fn lemma_every_status_has_an_exit(status: ServiceStatus)
    ensures
        exists|event: ServiceEvent| #[trigger] next_status(status, event) is Some,
{
    match status {
        ServiceStatus::Stopped => assert(next_status(status, ServiceEvent::StartRequested) is Some),
        ServiceStatus::Starting => assert(next_status(status, ServiceEvent::Ready) is Some),
        ServiceStatus::Running => assert(next_status(status, ServiceEvent::StopRequested) is Some),
        ServiceStatus::Stopping => assert(next_status(status, ServiceEvent::StopCompleted) is Some),
        ServiceStatus::Unhealthy => assert(next_status(status, ServiceEvent::HealthRestored) is Some),
        ServiceStatus::External => assert(next_status(status, ServiceEvent::DisconnectExternal) is Some),
        ServiceStatus::Error => assert(next_status(status, ServiceEvent::CleanupError) is Some),
    }
}

/// A stop can only be requested of a running service; a start only of a
/// stopped one.
pub proof fn lemma_stop_and_start_requests_need_matching_status(status: ServiceStatus)
    ensures
        next_status(status, ServiceEvent::StopRequested) is Some <==> status == ServiceStatus::Running,
        next_status(status, ServiceEvent::StartRequested) is Some <==> status == ServiceStatus::Stopped,
{
}

/// A process exit never leaves the service in a running status.
pub proof fn lemma_process_exit_never_yields_running(status: ServiceStatus)
    ensures
        next_status(status, ServiceEvent::ProcessExited) matches Some(next) ==> next == ServiceStatus::Error
            || next == ServiceStatus::Stopped,
{
}

} // verus!
