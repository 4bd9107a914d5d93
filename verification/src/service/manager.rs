//! The decisions of the service supervisor. The supervisor itself starts and
//! stops the sidecar process and waits on it; every decision it takes between
//! those steps is made here, on the lifecycle record it keeps.
use crate::service::health::PortProbe;
use crate::service::ownership::ProcessOwnership;
use crate::service::state::{next_status, transition, ServiceEvent, ServiceStatus, StateTransitionError};
use crate::settings::{settings_error_message, SettingsError};
use crate::text::{decimal, decimal_chars, push_all, push_str, string_from_chars};
use crate::time::UtcTime;
use crate::update_check::copy_opt_string;
use crate::web_url::opt_string_view;
use vstd::prelude::*;

verus! {

/// How long the supervisor waits at each step, in milliseconds.
#[derive(Clone, Copy, Debug, PartialEq, Eq, Structural)]
pub struct ManagerTimeouts {
    pub http_ready_ms: u64,
    pub panel_ready_ms: u64,
    pub stop_grace_ms: u64,
    pub kill_grace_ms: u64,
    pub poll_interval_ms: u64,
}

impl Default for ManagerTimeouts {
    /// HTTP within 20 s and the panel within 40 s of the spawn; 5 s for a
    /// graceful stop and 2 s more after a kill; polls every 100 ms.
    fn default() -> (r: Self)
        ensures
            r == (ManagerTimeouts {
                http_ready_ms: 20000,
                panel_ready_ms: 40000,
                stop_grace_ms: 5000,
                kill_grace_ms: 2000,
                poll_interval_ms: 100,
            }),
    {
        ManagerTimeouts {
            http_ready_ms: 20000,
            panel_ready_ms: 40000,
            stop_grace_ms: 5000,
            kill_grace_ms: 2000,
            poll_interval_ms: 100,
        }
    }
}

/// Why a supervisor operation failed.
#[derive(Debug)]
pub enum ManagerError {
    InvalidStatus(ServiceStatus),
    InvalidOwnership(ProcessOwnership),
    PortNotCliRelayLike,
    PortOccupiedCliRelayLike,
    PortOccupiedUnknown,
    ProcessExited(Option<i32>),
    Timeout(&'static str),
    Io(String),
    Settings(SettingsError),
    State(StateTransitionError),
}

pub open spec fn status_name(s: ServiceStatus) -> Seq<char> {
    match s {
        ServiceStatus::Stopped => "Stopped"@,
        ServiceStatus::Starting => "Starting"@,
        ServiceStatus::Running => "Running"@,
        ServiceStatus::Stopping => "Stopping"@,
        ServiceStatus::Unhealthy => "Unhealthy"@,
        ServiceStatus::External => "External"@,
        ServiceStatus::Error => "Error"@,
    }
}

pub fn status_name_str(s: ServiceStatus) -> (r: &'static str)
    ensures
        r@ == status_name(s),
{
    match s {
        ServiceStatus::Stopped => "Stopped",
        ServiceStatus::Starting => "Starting",
        ServiceStatus::Running => "Running",
        ServiceStatus::Stopping => "Stopping",
        ServiceStatus::Unhealthy => "Unhealthy",
        ServiceStatus::External => "External",
        ServiceStatus::Error => "Error",
    }
}

pub open spec fn ownership_name(o: ProcessOwnership) -> Seq<char> {
    match o {
        ProcessOwnership::Owned => "Owned"@,
        ProcessOwnership::External => "External"@,
        ProcessOwnership::Stale => "Stale"@,
        ProcessOwnership::Unknown => "Unknown"@,
    }
}

fn ownership_name_str(o: ProcessOwnership) -> (r: &'static str)
    ensures
        r@ == ownership_name(o),
{
    match o {
        ProcessOwnership::Owned => "Owned",
        ProcessOwnership::External => "External",
        ProcessOwnership::Stale => "Stale",
        ProcessOwnership::Unknown => "Unknown",
    }
}

pub open spec fn event_name(e: ServiceEvent) -> Seq<char> {
    match e {
        ServiceEvent::StartRequested => "StartRequested"@,
        ServiceEvent::Ready => "Ready"@,
        ServiceEvent::PortOccupiedExternalConfirmed => "PortOccupiedExternalConfirmed"@,
        ServiceEvent::Timeout => "Timeout"@,
        ServiceEvent::ProcessExited => "ProcessExited"@,
        ServiceEvent::StopRequested => "StopRequested"@,
        ServiceEvent::StopCompleted => "StopCompleted"@,
        ServiceEvent::HealthFailedThreeTimes => "HealthFailedThreeTimes"@,
        ServiceEvent::HealthRestored => "HealthRestored"@,
        ServiceEvent::RestartRequested => "RestartRequested"@,
        ServiceEvent::DisconnectExternal => "DisconnectExternal"@,
        ServiceEvent::CleanupError => "CleanupError"@,
    }
}

fn event_name_str(e: ServiceEvent) -> (r: &'static str)
    ensures
        r@ == event_name(e),
{
    match e {
        ServiceEvent::StartRequested => "StartRequested",
        ServiceEvent::Ready => "Ready",
        ServiceEvent::PortOccupiedExternalConfirmed => "PortOccupiedExternalConfirmed",
        ServiceEvent::Timeout => "Timeout",
        ServiceEvent::ProcessExited => "ProcessExited",
        ServiceEvent::StopRequested => "StopRequested",
        ServiceEvent::StopCompleted => "StopCompleted",
        ServiceEvent::HealthFailedThreeTimes => "HealthFailedThreeTimes",
        ServiceEvent::HealthRestored => "HealthRestored",
        ServiceEvent::RestartRequested => "RestartRequested",
        ServiceEvent::DisconnectExternal => "DisconnectExternal",
        ServiceEvent::CleanupError => "CleanupError",
    }
}

/// An integer in decimal, with a minus sign when negative.
pub open spec fn int_text(i: int) -> Seq<char> {
    if i < 0 {
        seq!['-'] + decimal((-i) as nat)
    } else {
        decimal(i as nat)
    }
}

/// An optional exit code as `Some(code)` or `None`.
pub open spec fn exit_code_text(code: Option<i32>) -> Seq<char> {
    match code {
        Some(c) => "Some("@ + int_text(c as int) + ")"@,
        None => "None"@,
    }
}

fn push_exit_code(v: &mut Vec<char>, code: Option<i32>)
    ensures
        final(v)@ == old(v)@ + exit_code_text(code),
{
    match code {
        Some(c) => {
            push_str(v, "Some(");
            let ghost mid = v@;
            if c < 0 {
                v.push('-');
                let magnitude: u64 = (-(c as i64)) as u64;
                let d = decimal_chars(magnitude);
                push_all(v, d.as_slice());
                assert(v@ =~= mid + (seq!['-'] + decimal((-(c as int)) as nat)));
            } else {
                let d = decimal_chars(c as u64);
                push_all(v, d.as_slice());
            }
            push_str(v, ")");
        },
        None => {
            push_str(v, "None");
        },
    }
}

/// The message of a supervisor error.
pub open spec fn manager_error_message(e: ManagerError) -> Seq<char> {
    match e {
        ManagerError::InvalidStatus(s) => "当前状态不允许执行该操作: "@ + status_name(s),
        ManagerError::InvalidOwnership(o) => "当前进程归属不允许执行该操作: "@ + ownership_name(o),
        ManagerError::PortNotCliRelayLike => "端口上没有可连接的 CliRelay 类服务"@,
        ManagerError::PortOccupiedCliRelayLike => "端口已被 CliRelay 类服务占用"@,
        ManagerError::PortOccupiedUnknown => "端口已被未知服务占用"@,
        ManagerError::ProcessExited(code) => "Sidecar 已退出，退出码: "@ + exit_code_text(code),
        ManagerError::Timeout(stage) => "等待 "@ + stage@ + " 超时"@,
        ManagerError::Io(m) => m@,
        ManagerError::Settings(s) => settings_error_message(s),
        ManagerError::State(t) => "非法状态转换: "@ + status_name(t.status) + " + "@ + event_name(
            t.event,
        ),
    }
}

impl ManagerError {
    /// The error's message.
    pub fn to_string(&self) -> (r: String)
        ensures
            r@ == manager_error_message(*self),
    {
        let mut v: Vec<char> = Vec::new();
        match self {
            ManagerError::InvalidStatus(s) => {
                push_str(&mut v, "当前状态不允许执行该操作: ");
                push_str(&mut v, status_name_str(*s));
            },
            ManagerError::InvalidOwnership(o) => {
                push_str(&mut v, "当前进程归属不允许执行该操作: ");
                push_str(&mut v, ownership_name_str(*o));
            },
            ManagerError::PortNotCliRelayLike => {
                push_str(&mut v, "端口上没有可连接的 CliRelay 类服务");
            },
            ManagerError::PortOccupiedCliRelayLike => {
                push_str(&mut v, "端口已被 CliRelay 类服务占用");
            },
            ManagerError::PortOccupiedUnknown => {
                push_str(&mut v, "端口已被未知服务占用");
            },
            ManagerError::ProcessExited(code) => {
                push_str(&mut v, "Sidecar 已退出，退出码: ");
                push_exit_code(&mut v, *code);
            },
            ManagerError::Timeout(stage) => {
                push_str(&mut v, "等待 ");
                push_str(&mut v, stage);
                push_str(&mut v, " 超时");
            },
            ManagerError::Io(m) => {
                return m.clone();
            },
            ManagerError::Settings(s) => {
                return s.to_string();
            },
            ManagerError::State(t) => {
                push_str(&mut v, "非法状态转换: ");
                push_str(&mut v, status_name_str(t.status));
                push_str(&mut v, " + ");
                push_str(&mut v, event_name_str(t.event));
            },
        }
        string_from_chars(v.as_slice())
    }
}

/// What the supervisor reports about the service.
#[derive(Clone, Debug)]
pub struct ServiceSnapshot {
    pub status: ServiceStatus,
    pub pid: Option<u32>,
    pub port: u16,
    pub endpoint: String,
    pub panel_url: String,
    pub started_at: Option<UtcTime>,
    pub last_exit_code: Option<i32>,
    pub last_error: Option<String>,
    pub ownership: ProcessOwnership,
    pub clirelay_version: String,
    pub code_proxy_version: String,
    pub sidecar_sha256: String,
}

/// A snapshot as plain values.
pub struct SnapshotView {
    pub status: ServiceStatus,
    pub pid: Option<u32>,
    pub port: u16,
    pub endpoint: Seq<char>,
    pub panel_url: Seq<char>,
    pub started_at: Option<UtcTime>,
    pub last_exit_code: Option<i32>,
    pub last_error: Option<Seq<char>>,
    pub ownership: ProcessOwnership,
    pub clirelay_version: Seq<char>,
    pub code_proxy_version: Seq<char>,
    pub sidecar_sha256: Seq<char>,
}

impl View for ServiceSnapshot {
    type V = SnapshotView;

    open spec fn view(&self) -> SnapshotView {
        SnapshotView {
            status: self.status,
            pid: self.pid,
            port: self.port,
            endpoint: self.endpoint@,
            panel_url: self.panel_url@,
            started_at: self.started_at,
            last_exit_code: self.last_exit_code,
            last_error: opt_string_view(self.last_error),
            ownership: self.ownership,
            clirelay_version: self.clirelay_version@,
            code_proxy_version: self.code_proxy_version@,
            sidecar_sha256: self.sidecar_sha256@,
        }
    }
}

/// The service's base address on `host` and `port`.
pub open spec fn endpoint_text(host: Seq<char>, port: u16) -> Seq<char> {
    "http://"@ + host + ":"@ + decimal(port as nat)
}

/// What the supervisor keeps about the service, apart from the process handle.
pub struct ServiceLifecycle {
    host: String,
    port: u16,
    clirelay_version: String,
    code_proxy_version: String,
    sidecar_sha256: String,
    status: ServiceStatus,
    pid: Option<u32>,
    started_at: Option<UtcTime>,
    last_exit_code: Option<i32>,
    last_error: Option<String>,
    ownership: ProcessOwnership,
}

/// The lifecycle record as plain values.
pub struct LifecycleView {
    pub host: Seq<char>,
    pub port: u16,
    pub clirelay_version: Seq<char>,
    pub code_proxy_version: Seq<char>,
    pub sidecar_sha256: Seq<char>,
    pub status: ServiceStatus,
    pub pid: Option<u32>,
    pub started_at: Option<UtcTime>,
    pub last_exit_code: Option<i32>,
    pub last_error: Option<Seq<char>>,
    pub ownership: ProcessOwnership,
}

impl View for ServiceLifecycle {
    type V = LifecycleView;

    closed spec fn view(&self) -> LifecycleView {
        LifecycleView {
            host: self.host@,
            port: self.port,
            clirelay_version: self.clirelay_version@,
            code_proxy_version: self.code_proxy_version@,
            sidecar_sha256: self.sidecar_sha256@,
            status: self.status,
            pid: self.pid,
            started_at: self.started_at,
            last_exit_code: self.last_exit_code,
            last_error: opt_string_view(self.last_error),
            ownership: self.ownership,
        }
    }
}

/// The snapshot of a lifecycle record: its fields, the endpoint on its host
/// and port, and the panel under `/manage` of that endpoint.
pub open spec fn snapshot_of(v: LifecycleView) -> SnapshotView {
    SnapshotView {
        status: v.status,
        pid: v.pid,
        port: v.port,
        endpoint: endpoint_text(v.host, v.port),
        panel_url: endpoint_text(v.host, v.port) + "/manage"@,
        started_at: v.started_at,
        last_exit_code: v.last_exit_code,
        last_error: v.last_error,
        ownership: v.ownership,
        clirelay_version: v.clirelay_version,
        code_proxy_version: v.code_proxy_version,
        sidecar_sha256: v.sidecar_sha256,
    }
}

/// `v` with the process forgotten: no pid, no start time, ownership unknown.
pub open spec fn cleared(v: LifecycleView) -> LifecycleView {
    LifecycleView { pid: None, started_at: None, ownership: ProcessOwnership::Unknown, ..v }
}

/// `v` after `event`: the next status where the graph has an edge, the same
/// status otherwise.
pub open spec fn after_event(v: LifecycleView, event: ServiceEvent) -> LifecycleView {
    match next_status(v.status, event) {
        Some(s) => LifecycleView { status: s, ..v },
        None => v,
    }
}

/// The event that ends a failed start: the process exited, or anything else
/// timed out.
pub open spec fn failure_event_of(error: ManagerError) -> ServiceEvent {
    match error {
        ManagerError::ProcessExited(_) => ServiceEvent::ProcessExited,
        _ => ServiceEvent::Timeout,
    }
}

pub fn start_failure_event(error: &ManagerError) -> (r: ServiceEvent)
    ensures
        r == failure_event_of(*error),
{
    match error {
        ManagerError::ProcessExited(_) => ServiceEvent::ProcessExited,
        _ => ServiceEvent::Timeout,
    }
}

/// What a restart request does for a status.
#[derive(Clone, Copy, Debug, PartialEq, Eq, Structural)]
pub enum RestartPlan {
    StopThenStart,
    StartOnly,
    Refuse,
}

/// A running service (healthy or not) is stopped and started again; a failed
/// one is started; any other status refuses.
pub fn restart_plan(status: ServiceStatus) -> (r: RestartPlan)
    ensures
        r == match status {
            ServiceStatus::Running | ServiceStatus::Unhealthy => RestartPlan::StopThenStart,
            ServiceStatus::Error => RestartPlan::StartOnly,
            _ => RestartPlan::Refuse,
        },
{
    match status {
        ServiceStatus::Running | ServiceStatus::Unhealthy => RestartPlan::StopThenStart,
        ServiceStatus::Error => RestartPlan::StartOnly,
        _ => RestartPlan::Refuse,
    }
}

/// What the supervisor does next while it waits for a stage.
#[derive(Clone, Copy, Debug, PartialEq, Eq, Structural)]
pub enum WaitStep {
    Exited(Option<i32>),
    Ready,
    TimedOut,
    KeepWaiting,
}

/// One round of waiting: an exit of the process ends the wait first, then
/// readiness, then the deadline; otherwise wait on.
pub fn wait_step(exited: Option<Option<i32>>, ready: bool, past_deadline: bool) -> (r: WaitStep)
    ensures
        r == match exited {
            Some(code) => WaitStep::Exited(code),
            None => if ready {
                WaitStep::Ready
            } else if past_deadline {
                WaitStep::TimedOut
            } else {
                WaitStep::KeepWaiting
            },
        },
{
    match exited {
        Some(code) => WaitStep::Exited(code),
        None => {
            if ready {
                WaitStep::Ready
            } else if past_deadline {
                WaitStep::TimedOut
            } else {
                WaitStep::KeepWaiting
            }
        },
    }
}

/// The port a start may use: only a free one.
pub open spec fn start_port_error(probe: PortProbe) -> Option<ManagerError> {
    match probe {
        PortProbe::Free => None,
        PortProbe::OccupiedCliRelayLike => Some(ManagerError::PortOccupiedCliRelayLike),
        PortProbe::OccupiedUnknown => Some(ManagerError::PortOccupiedUnknown),
    }
}

/// `r` is the refusal of a request for the status `s`.
pub open spec fn refused_for_status<T>(r: Result<T, ManagerError>, s: ServiceStatus) -> bool {
    match r {
        Err(ManagerError::InvalidStatus(x)) => x == s,
        _ => false,
    }
}

/// `r` is the refusal of a stop for a process owned as `o`.
pub open spec fn refused_for_ownership<T>(r: Result<T, ManagerError>, o: ProcessOwnership) -> bool {
    match r {
        Err(ManagerError::InvalidOwnership(x)) => x == o,
        _ => false,
    }
}

/// `r` reports that the graph has no edge for `event` out of `status`.
pub open spec fn refused_edge<T>(r: Result<T, ManagerError>, status: ServiceStatus, event: ServiceEvent) -> bool {
    match r {
        Err(ManagerError::State(t)) => t == (StateTransitionError { status, event }),
        _ => false,
    }
}

/// `r` is the snapshot of the record `v`.
pub open spec fn reports(r: Result<ServiceSnapshot, ManagerError>, v: LifecycleView) -> bool {
    match r {
        Ok(s) => s@ == snapshot_of(v),
        Err(_) => false,
    }
}

impl ServiceLifecycle {
    /// A stopped service with nothing recorded, on `host` and `port`.
    pub fn new(
        host: String,
        port: u16,
        clirelay_version: String,
        code_proxy_version: String,
        sidecar_sha256: String,
    ) -> (r: Self)
        ensures
            r@ == (LifecycleView {
                host: host@,
                port,
                clirelay_version: clirelay_version@,
                code_proxy_version: code_proxy_version@,
                sidecar_sha256: sidecar_sha256@,
                status: ServiceStatus::Stopped,
                pid: None,
                started_at: None,
                last_exit_code: None,
                last_error: None,
                ownership: ProcessOwnership::Unknown,
            }),
    {
        ServiceLifecycle {
            host,
            port,
            clirelay_version,
            code_proxy_version,
            sidecar_sha256,
            status: ServiceStatus::Stopped,
            pid: None,
            started_at: None,
            last_exit_code: None,
            last_error: None,
            ownership: ProcessOwnership::Unknown,
        }
    }

    pub fn status(&self) -> (r: ServiceStatus)
        ensures
            r == self@.status,
    {
        self.status
    }

    pub fn pid(&self) -> (r: Option<u32>)
        ensures
            r == self@.pid,
    {
        self.pid
    }

    pub fn port(&self) -> (r: u16)
        ensures
            r == self@.port,
    {
        self.port
    }

    pub fn ownership(&self) -> (r: ProcessOwnership)
        ensures
            r == self@.ownership,
    {
        self.ownership
    }

    /// Uses `port` from now on; nothing else changes.
    pub fn set_port(&mut self, port: u16)
        ensures
            final(self)@ == (LifecycleView { port, ..old(self)@ }),
    {
        self.port = port;
    }

    /// The report on the service.
    pub fn snapshot(&self) -> (r: ServiceSnapshot)
        ensures
            r@ == snapshot_of(self@),
    {
        let mut e: Vec<char> = Vec::new();
        push_str(&mut e, "http://");
        push_str(&mut e, self.host.as_str());
        push_str(&mut e, ":");
        let digits = decimal_chars(self.port as u64);
        push_all(&mut e, digits.as_slice());
        let endpoint = string_from_chars(e.as_slice());
        push_str(&mut e, "/manage");
        let panel_url = string_from_chars(e.as_slice());
        ServiceSnapshot {
            status: self.status,
            pid: self.pid,
            port: self.port,
            endpoint,
            panel_url,
            started_at: self.started_at,
            last_exit_code: self.last_exit_code,
            last_error: copy_opt_string(&self.last_error),
            ownership: self.ownership,
            clirelay_version: self.clirelay_version.clone(),
            code_proxy_version: self.code_proxy_version.clone(),
            sidecar_sha256: self.sidecar_sha256.clone(),
        }
    }

    /// Takes the versions and sidecar digest of freshly installed components.
    pub fn refresh_components(&mut self, clirelay_version: String, code_proxy_version: String, sidecar_sha256: String)
        ensures
            final(self)@ == (LifecycleView {
                clirelay_version: clirelay_version@,
                code_proxy_version: code_proxy_version@,
                sidecar_sha256: sidecar_sha256@,
                ..old(self)@
            }),
    {
        self.clirelay_version = clirelay_version;
        self.code_proxy_version = code_proxy_version;
        self.sidecar_sha256 = sidecar_sha256;
    }

    fn apply_event(&mut self, event: ServiceEvent) -> (r: Result<(), ManagerError>)
        ensures
            final(self)@ == after_event(old(self)@, event),
            match next_status(old(self)@.status, event) {
                Some(_) => r is Ok,
                None => refused_edge(r, old(self)@.status, event),
            },
    {
        match transition(self.status, event) {
            Ok(next) => {
                self.status = next;
                Ok(())
            },
            Err(t) => Err(ManagerError::State(t)),
        }
    }

    fn clear_owned_process(&mut self)
        ensures
            final(self)@ == cleared(old(self)@),
    {
        self.pid = None;
        self.started_at = None;
        self.ownership = ProcessOwnership::Unknown;
    }

    /// Starts an attempt to start the service, from stopped or after a
    /// failure: the status moves to starting and the last error and exit code
    /// are cleared. Any other status refuses and nothing changes.
    pub fn begin_start(&mut self) -> (r: Result<(), ManagerError>)
        ensures
            old(self)@.status == ServiceStatus::Stopped || old(self)@.status == ServiceStatus::Error
                ==> r is Ok && final(self)@ == (LifecycleView {
                status: ServiceStatus::Starting,
                last_error: None,
                last_exit_code: None,
                ..old(self)@
            }),
            !(old(self)@.status == ServiceStatus::Stopped || old(self)@.status == ServiceStatus::Error)
                ==> refused_for_status(r, old(self)@.status) && final(self)@ == old(self)@,
    {
        if !(self.status == ServiceStatus::Stopped || self.status == ServiceStatus::Error) {
            return Err(ManagerError::InvalidStatus(self.status));
        }
        let event = if self.status == ServiceStatus::Error {
            ServiceEvent::RestartRequested
        } else {
            ServiceEvent::StartRequested
        };
        let r = self.apply_event(event);
        self.last_error = None;
        self.last_exit_code = None;
        r
    }

    /// Ends a failed start (or connection): the event moves the status where
    /// the graph allows, the error's message is kept as the last error, and
    /// the process is forgotten. The error is handed back.
    pub fn fail_start(&mut self, error: ManagerError, event: ServiceEvent) -> (r: ManagerError)
        ensures
            r == error,
            final(self)@ == (LifecycleView {
                last_error: Some(manager_error_message(error)),
                ..cleared(after_event(old(self)@, event))
            }),
    {
        let message = error.to_string();
        let _ = self.apply_event(event);
        self.last_error = Some(message);
        self.clear_owned_process();
        error
    }

    /// The runtime files could not be prepared: the start fails as timed out.
    pub fn prepare_failed(&mut self, error: SettingsError) -> (r: ManagerError)
        ensures
            r == ManagerError::Settings(error),
            final(self)@ == (LifecycleView {
                last_error: Some(settings_error_message(error)),
                ..cleared(after_event(old(self)@, ServiceEvent::Timeout))
            }),
    {
        self.fail_start(ManagerError::Settings(error), ServiceEvent::Timeout)
    }

    /// The port check before a spawn: a free port lets the start go on;
    /// otherwise the start fails as timed out with the reason.
    pub fn check_start_port(&mut self, probe: PortProbe) -> (r: Result<(), ManagerError>)
        ensures
            match start_port_error(probe) {
                None => r is Ok && final(self)@ == old(self)@,
                Some(e) => r == Err::<(), ManagerError>(e) && final(self)@ == (LifecycleView {
                    last_error: Some(manager_error_message(e)),
                    ..cleared(after_event(old(self)@, ServiceEvent::Timeout))
                }),
            },
    {
        match probe {
            PortProbe::Free => Ok(()),
            PortProbe::OccupiedCliRelayLike => Err(
                self.fail_start(ManagerError::PortOccupiedCliRelayLike, ServiceEvent::Timeout),
            ),
            PortProbe::OccupiedUnknown => Err(
                self.fail_start(ManagerError::PortOccupiedUnknown, ServiceEvent::Timeout),
            ),
        }
    }

    /// The sidecar could not be spawned: the start fails as a process exit.
    pub fn spawn_failed(&mut self, error: ManagerError) -> (r: ManagerError)
        ensures
            r == error,
            final(self)@ == (LifecycleView {
                last_error: Some(manager_error_message(error)),
                ..cleared(after_event(old(self)@, ServiceEvent::ProcessExited))
            }),
    {
        self.fail_start(error, ServiceEvent::ProcessExited)
    }

    /// The sidecar runs: its pid and start time are recorded and it is the
    /// app's own.
    pub fn record_spawned(&mut self, pid: u32, started_at: UtcTime)
        ensures
            final(self)@ == (LifecycleView {
                pid: Some(pid),
                started_at: Some(started_at),
                ownership: ProcessOwnership::Owned,
                ..old(self)@
            }),
    {
        self.pid = Some(pid);
        self.started_at = Some(started_at);
        self.ownership = ProcessOwnership::Owned;
    }

    /// A wait for readiness failed: the start fails with the event the error
    /// calls for.
    pub fn readiness_failed(&mut self, error: ManagerError) -> (r: ManagerError)
        ensures
            r == error,
            final(self)@ == (LifecycleView {
                last_error: Some(manager_error_message(error)),
                ..cleared(after_event(old(self)@, failure_event_of(error)))
            }),
    {
        let event = start_failure_event(&error);
        self.fail_start(error, event)
    }

    /// The sidecar exited with `code`.
    pub fn record_exit(&mut self, code: Option<i32>)
        ensures
            final(self)@ == (LifecycleView { last_exit_code: code, ..old(self)@ }),
    {
        self.last_exit_code = code;
    }

    /// The panel is up: the service runs as the app's own.
    pub fn finish_start(&mut self) -> (r: Result<ServiceSnapshot, ManagerError>)
        ensures
            old(self)@.status == ServiceStatus::Starting ==> final(self)@ == (LifecycleView {
                status: ServiceStatus::Running,
                ownership: ProcessOwnership::Owned,
                ..old(self)@
            }) && reports(r, final(self)@),
            old(self)@.status != ServiceStatus::Starting ==> final(self)@ == old(self)@ && refused_edge(
                r,
                old(self)@.status,
                ServiceEvent::Ready,
            ),
    {
        self.apply_event(ServiceEvent::Ready)?;
        self.ownership = ProcessOwnership::Owned;
        Ok(self.snapshot())
    }

    /// Starts a stop: only a running service (healthy or not) that the app
    /// owns can be stopped; an unhealthy one moves to stopping by the restart
    /// edge. A refused request changes nothing.
    pub fn begin_stop(&mut self) -> (r: Result<(), ManagerError>)
        ensures
            !(old(self)@.status == ServiceStatus::Running || old(self)@.status
                == ServiceStatus::Unhealthy) ==> refused_for_status(r, old(self)@.status) && final(self)@
                == old(self)@,
            (old(self)@.status == ServiceStatus::Running || old(self)@.status
                == ServiceStatus::Unhealthy) && old(self)@.ownership != ProcessOwnership::Owned
                ==> refused_for_ownership(r, old(self)@.ownership) && final(self)@ == old(self)@,
            (old(self)@.status == ServiceStatus::Running || old(self)@.status
                == ServiceStatus::Unhealthy) && old(self)@.ownership == ProcessOwnership::Owned
                ==> r is Ok && final(self)@ == (LifecycleView {
                status: ServiceStatus::Stopping,
                ..old(self)@
            }),
    {
        if !(self.status == ServiceStatus::Running || self.status == ServiceStatus::Unhealthy) {
            return Err(ManagerError::InvalidStatus(self.status));
        }
        if self.ownership != ProcessOwnership::Owned {
            return Err(ManagerError::InvalidOwnership(self.ownership));
        }
        let event = if self.status == ServiceStatus::Unhealthy {
            ServiceEvent::RestartRequested
        } else {
            ServiceEvent::StopRequested
        };
        self.apply_event(event)
    }

    /// The process did not go away after a kill: the stop fails as timed out.
    pub fn stop_timed_out(&mut self) -> (r: ManagerError)
        ensures
            r == ManagerError::Timeout("停止 Sidecar"),
            final(self)@ == (LifecycleView {
                last_error: Some(manager_error_message(ManagerError::Timeout("停止 Sidecar"))),
                ..after_event(old(self)@, ServiceEvent::Timeout)
            }),
    {
        let error = ManagerError::Timeout("停止 Sidecar");
        let message = error.to_string();
        self.last_error = Some(message);
        let _ = self.apply_event(ServiceEvent::Timeout);
        error
    }

    /// The process is gone: it is forgotten and the service is stopped.
    pub fn finish_stop(&mut self) -> (r: Result<ServiceSnapshot, ManagerError>)
        ensures
            old(self)@.status == ServiceStatus::Stopping ==> final(self)@ == (LifecycleView {
                status: ServiceStatus::Stopped,
                ..cleared(old(self)@)
            }) && reports(r, final(self)@),
            old(self)@.status != ServiceStatus::Stopping ==> final(self)@ == cleared(old(self)@)
                && refused_edge(r, old(self)@.status, ServiceEvent::StopCompleted),
    {
        self.clear_owned_process();
        self.apply_event(ServiceEvent::StopCompleted)?;
        Ok(self.snapshot())
    }

    /// Starts an attempt to adopt a service already on the port; allowed from
    /// the same statuses as a start, which it leaves in starting. Unlike a
    /// start it keeps the last error and exit code.
    pub fn begin_connect(&mut self) -> (r: Result<(), ManagerError>)
        ensures
            old(self)@.status == ServiceStatus::Stopped || old(self)@.status == ServiceStatus::Error
                ==> r is Ok && final(self)@ == (LifecycleView {
                status: ServiceStatus::Starting,
                ..old(self)@
            }),
            !(old(self)@.status == ServiceStatus::Stopped || old(self)@.status == ServiceStatus::Error)
                ==> refused_for_status(r, old(self)@.status) && final(self)@ == old(self)@,
    {
        if !(self.status == ServiceStatus::Stopped || self.status == ServiceStatus::Error) {
            return Err(ManagerError::InvalidStatus(self.status));
        }
        let event = if self.status == ServiceStatus::Error {
            ServiceEvent::RestartRequested
        } else {
            ServiceEvent::StartRequested
        };
        self.apply_event(event)
    }

    /// Ends the adoption: a CliRelay-like service on the port becomes the
    /// external service, never the app's own, with no pid or start time; a
    /// free port or an unknown service fails the attempt as timed out.
    pub fn finish_connect(&mut self, probe: PortProbe) -> (r: Result<ServiceSnapshot, ManagerError>)
        ensures
            probe == PortProbe::OccupiedCliRelayLike && old(self)@.status == ServiceStatus::Starting
                ==> final(self)@ == (LifecycleView {
                status: ServiceStatus::External,
                pid: None,
                started_at: None,
                last_error: None,
                ownership: ProcessOwnership::External,
                ..old(self)@
            }) && reports(r, final(self)@),
            probe == PortProbe::OccupiedCliRelayLike && old(self)@.status != ServiceStatus::Starting
                ==> final(self)@ == old(self)@ && refused_edge(
                r,
                old(self)@.status,
                ServiceEvent::PortOccupiedExternalConfirmed,
            ),
            probe == PortProbe::Free ==> r == Err::<ServiceSnapshot, ManagerError>(
                ManagerError::PortNotCliRelayLike,
            ) && final(self)@ == (LifecycleView {
                last_error: Some(manager_error_message(ManagerError::PortNotCliRelayLike)),
                ..cleared(after_event(old(self)@, ServiceEvent::Timeout))
            }),
            probe == PortProbe::OccupiedUnknown ==> r == Err::<ServiceSnapshot, ManagerError>(
                ManagerError::PortOccupiedUnknown,
            ) && final(self)@ == (LifecycleView {
                last_error: Some(manager_error_message(ManagerError::PortOccupiedUnknown)),
                ..cleared(after_event(old(self)@, ServiceEvent::Timeout))
            }),
    {
        match probe {
            PortProbe::OccupiedCliRelayLike => {
                self.apply_event(ServiceEvent::PortOccupiedExternalConfirmed)?;
                self.pid = None;
                self.started_at = None;
                self.last_error = None;
                self.ownership = ProcessOwnership::External;
                Ok(self.snapshot())
            },
            PortProbe::Free => Err(
                self.fail_start(ManagerError::PortNotCliRelayLike, ServiceEvent::Timeout),
            ),
            PortProbe::OccupiedUnknown => Err(
                self.fail_start(ManagerError::PortOccupiedUnknown, ServiceEvent::Timeout),
            ),
        }
    }

    /// Dropping the supervisor stops the service only when it runs as the
    /// app's own.
    pub fn stops_on_drop(&self) -> (r: bool)
        ensures
            r == ((self@.status == ServiceStatus::Running || self@.status == ServiceStatus::Unhealthy)
                && self@.ownership == ProcessOwnership::Owned),
    {
        (self.status == ServiceStatus::Running || self.status == ServiceStatus::Unhealthy)
            && self.ownership == ProcessOwnership::Owned
    }
}

/// A start attempt that fails after it began (the record is starting) always
/// ends in the error status with no process on record and the failure's
/// message kept.
pub proof fn lemma_failed_start_ends_in_error(v: LifecycleView, error: ManagerError, event: ServiceEvent)
    requires
        v.status == ServiceStatus::Starting,
        event == ServiceEvent::Timeout || event == ServiceEvent::ProcessExited,
    ensures
        (LifecycleView {
            last_error: Some(manager_error_message(error)),
            ..cleared(after_event(v, event))
        }).status == ServiceStatus::Error,
        cleared(after_event(v, event)).pid is None,
        cleared(after_event(v, event)).ownership == ProcessOwnership::Unknown,
{
}

/// The panel address of every snapshot is its endpoint followed by `/manage`.
pub proof fn lemma_panel_url_extends_endpoint(v: LifecycleView)
    ensures
        snapshot_of(v).panel_url == snapshot_of(v).endpoint + "/manage"@,
{
}

} // verus!
