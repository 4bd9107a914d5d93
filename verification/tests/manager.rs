use clirelay_desktop_lib::service::health::PortProbe;
use clirelay_desktop_lib::service::manager::{
    restart_plan, start_failure_event, wait_step, ManagerError, ManagerTimeouts, RestartPlan,
    ServiceLifecycle, WaitStep,
};
use clirelay_desktop_lib::service::ownership::ProcessOwnership;
use clirelay_desktop_lib::service::state::{ServiceEvent, ServiceStatus};
use clirelay_desktop_lib::settings::SettingsError;
use clirelay_desktop_lib::time::UtcTime;

fn lifecycle(port: u16) -> ServiceLifecycle {
    ServiceLifecycle::new(
        "127.0.0.1".to_string(),
        port,
        "v0.4.0".to_string(),
        "v0.4.0".to_string(),
        "sha".to_string(),
    )
}

#[test]
fn default_timeouts() {
    let t = ManagerTimeouts::default();
    assert_eq!(t.http_ready_ms, 20_000);
    assert_eq!(t.panel_ready_ms, 40_000);
    assert_eq!(t.stop_grace_ms, 5_000);
    assert_eq!(t.kill_grace_ms, 2_000);
    assert_eq!(t.poll_interval_ms, 100);
}

#[test]
fn a_successful_start_runs_owned_with_endpoint_and_panel_url() {
    let mut service = lifecycle(8317);
    service.begin_start().expect("start from stopped");
    assert_eq!(service.status(), ServiceStatus::Starting);
    service.check_start_port(PortProbe::Free).expect("free port");
    service.record_spawned(4242, UtcTime { secs: 10, nanos: 0 });
    let snapshot = service.finish_start().expect("ready");

    assert_eq!(snapshot.status, ServiceStatus::Running);
    assert_eq!(snapshot.ownership, ProcessOwnership::Owned);
    assert_eq!(snapshot.pid, Some(4242));
    assert_eq!(snapshot.endpoint, "http://127.0.0.1:8317");
    assert_eq!(snapshot.panel_url, "http://127.0.0.1:8317/manage");
    assert!(service.stops_on_drop());
}

#[test]
fn start_records_error_when_sidecar_exits_immediately() {
    let mut service = lifecycle(8317);
    service.begin_start().unwrap();
    service.check_start_port(PortProbe::Free).unwrap();
    service.record_spawned(4242, UtcTime { secs: 10, nanos: 0 });
    service.record_exit(Some(23));
    let error = service.readiness_failed(ManagerError::ProcessExited(Some(23)));
    let snapshot = service.snapshot();

    assert!(matches!(error, ManagerError::ProcessExited(Some(23))));
    assert_eq!(snapshot.status, ServiceStatus::Error);
    assert_eq!(snapshot.last_exit_code, Some(23));
    assert_eq!(snapshot.pid, None);
    assert_eq!(snapshot.ownership, ProcessOwnership::Unknown);
    assert_eq!(snapshot.last_error, Some("Sidecar 已退出，退出码: Some(23)".to_string()));
}

#[test]
fn occupied_ports_fail_the_start_as_timed_out() {
    let mut service = lifecycle(8317);
    service.begin_start().unwrap();
    let error = service.check_start_port(PortProbe::OccupiedUnknown).unwrap_err();
    assert!(matches!(error, ManagerError::PortOccupiedUnknown));
    assert_eq!(service.status(), ServiceStatus::Error);
    assert_eq!(service.snapshot().last_error, Some("端口已被未知服务占用".to_string()));

    service.begin_start().expect("restart from error");
    assert_eq!(service.snapshot().last_error, None);
    let error = service.check_start_port(PortProbe::OccupiedCliRelayLike).unwrap_err();
    assert_eq!(error.to_string(), "端口已被 CliRelay 类服务占用");
}

#[test]
fn stop_terminates_owned_service() {
    let mut service = lifecycle(8317);
    service.begin_start().unwrap();
    service.record_spawned(1, UtcTime { secs: 1, nanos: 0 });
    service.finish_start().unwrap();
    service.begin_stop().expect("stop owned");
    assert_eq!(service.status(), ServiceStatus::Stopping);
    let snapshot = service.finish_stop().expect("stopped");
    assert_eq!(snapshot.status, ServiceStatus::Stopped);
    assert_eq!(snapshot.pid, None);
    assert_eq!(snapshot.ownership, ProcessOwnership::Unknown);
}

#[test]
fn connect_external_marks_clirelay_like_port_without_taking_ownership() {
    let mut service = lifecycle(8317);
    service.begin_connect().expect("connect from stopped");
    let snapshot = service.finish_connect(PortProbe::OccupiedCliRelayLike).expect("external");

    assert_eq!(snapshot.status, ServiceStatus::External);
    assert_eq!(snapshot.ownership, ProcessOwnership::External);
    assert_eq!(snapshot.pid, None);
    assert!(matches!(
        service.begin_stop(),
        Err(ManagerError::InvalidStatus(ServiceStatus::External))
    ));
    assert!(!service.stops_on_drop());
}

#[test]
fn connect_to_a_free_port_fails() {
    let mut service = lifecycle(8317);
    service.begin_connect().unwrap();
    let error = service.finish_connect(PortProbe::Free).unwrap_err();
    assert!(matches!(error, ManagerError::PortNotCliRelayLike));
    assert_eq!(service.status(), ServiceStatus::Error);
}

#[test]
fn refused_requests_change_nothing() {
    let mut service = lifecycle(8317);
    assert!(matches!(service.begin_stop(), Err(ManagerError::InvalidStatus(ServiceStatus::Stopped))));
    service.begin_start().unwrap();
    assert!(matches!(service.begin_start(), Err(ManagerError::InvalidStatus(ServiceStatus::Starting))));
    assert!(matches!(service.begin_connect(), Err(ManagerError::InvalidStatus(ServiceStatus::Starting))));
    assert_eq!(service.status(), ServiceStatus::Starting);
    assert!(matches!(service.finish_stop(), Err(ManagerError::State(_))));
}

#[test]
fn stop_timeouts_and_settings_failures() {
    let mut service = lifecycle(8317);
    service.begin_start().unwrap();
    let error = service.prepare_failed(SettingsError::MissingTopLevelPort);
    assert!(matches!(error, ManagerError::Settings(SettingsError::MissingTopLevelPort)));
    assert_eq!(service.status(), ServiceStatus::Error);

    let mut running = lifecycle(8317);
    running.begin_start().unwrap();
    running.record_spawned(7, UtcTime { secs: 1, nanos: 0 });
    running.finish_start().unwrap();
    running.begin_stop().unwrap();
    let error = running.stop_timed_out();
    assert_eq!(error.to_string(), "等待 停止 Sidecar 超时");
    assert_eq!(running.status(), ServiceStatus::Error);
    assert_eq!(running.pid(), Some(7));
}

#[test]
fn restart_and_wait_decisions() {
    assert_eq!(restart_plan(ServiceStatus::Running), RestartPlan::StopThenStart);
    assert_eq!(restart_plan(ServiceStatus::Unhealthy), RestartPlan::StopThenStart);
    assert_eq!(restart_plan(ServiceStatus::Error), RestartPlan::StartOnly);
    assert_eq!(restart_plan(ServiceStatus::External), RestartPlan::Refuse);
    assert_eq!(wait_step(Some(Some(1)), true, true), WaitStep::Exited(Some(1)));
    assert_eq!(wait_step(None, true, true), WaitStep::Ready);
    assert_eq!(wait_step(None, false, true), WaitStep::TimedOut);
    assert_eq!(wait_step(None, false, false), WaitStep::KeepWaiting);
    assert_eq!(start_failure_event(&ManagerError::ProcessExited(None)), ServiceEvent::ProcessExited);
    assert_eq!(start_failure_event(&ManagerError::Timeout("HTTP ready")), ServiceEvent::Timeout);
}

#[test]
fn manager_error_messages() {
    assert_eq!(
        ManagerError::InvalidStatus(ServiceStatus::External).to_string(),
        "当前状态不允许执行该操作: External"
    );
    assert_eq!(
        ManagerError::InvalidOwnership(ProcessOwnership::Stale).to_string(),
        "当前进程归属不允许执行该操作: Stale"
    );
    assert_eq!(ManagerError::ProcessExited(None).to_string(), "Sidecar 已退出，退出码: None");
    assert_eq!(ManagerError::ProcessExited(Some(-9)).to_string(), "Sidecar 已退出，退出码: Some(-9)");
    assert_eq!(ManagerError::Timeout("Panel ready").to_string(), "等待 Panel ready 超时");
}

#[test]
fn refreshed_components_show_in_snapshots() {
    let mut service = lifecycle(9000);
    service.refresh_components("v0.5.0".to_string(), "v0.6.0".to_string(), "new-sha".to_string());
    service.set_port(9001);
    let snapshot = service.snapshot();
    assert_eq!(snapshot.clirelay_version, "v0.5.0");
    assert_eq!(snapshot.code_proxy_version, "v0.6.0");
    assert_eq!(snapshot.sidecar_sha256, "new-sha");
    assert_eq!(snapshot.endpoint, "http://127.0.0.1:9001");
}
