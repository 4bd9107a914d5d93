use clirelay_desktop_lib::service::ownership::{
    determine_process_ownership, ProcessOwnership, ProcessSnapshot, RuntimeState,
};
use clirelay_desktop_lib::time::UtcTime;

fn runtime_state() -> RuntimeState {
    RuntimeState {
        pid: 12345,
        started_at: UtcTime { secs: 1_700_000_000, nanos: 0 },
        executable_path: "/Applications/CliRelay Desktop.app/sidecar".to_string(),
        executable_sha256: "sidecar-sha".to_string(),
        port: 8317,
        desktop_version: "0.0.1-preview.1".to_string(),
        launch_id: 0,
    }
}

fn matching_snapshot() -> ProcessSnapshot {
    let state = runtime_state();

    ProcessSnapshot {
        pid: state.pid,
        started_at: state.started_at,
        executable_path: state.executable_path,
        executable_sha256: state.executable_sha256,
    }
}

#[test]
fn pid_not_found_is_stale() {
    assert_eq!(
        determine_process_ownership(&runtime_state(), None),
        ProcessOwnership::Stale
    );
}

#[test]
fn path_mismatch_is_external() {
    let mut snapshot = matching_snapshot();
    snapshot.executable_path = "/usr/local/bin/cli-proxy-api".to_string();

    assert_eq!(
        determine_process_ownership(&runtime_state(), Some(&snapshot)),
        ProcessOwnership::External
    );
}

#[test]
fn sha_mismatch_is_external() {
    let mut snapshot = matching_snapshot();
    snapshot.executable_sha256 = "different-sha".to_string();

    assert_eq!(
        determine_process_ownership(&runtime_state(), Some(&snapshot)),
        ProcessOwnership::External
    );
}

#[test]
fn start_time_mismatch_is_external() {
    let mut snapshot = matching_snapshot();
    snapshot.started_at = UtcTime { secs: 1_700_000_001, nanos: 0 };

    assert_eq!(
        determine_process_ownership(&runtime_state(), Some(&snapshot)),
        ProcessOwnership::External
    );
}

#[test]
fn matching_pid_start_time_path_and_sha_is_owned() {
    let snapshot = matching_snapshot();

    assert_eq!(
        determine_process_ownership(&runtime_state(), Some(&snapshot)),
        ProcessOwnership::Owned
    );
}

#[test]
fn pid_mismatch_is_external() {
    let mut snapshot = matching_snapshot();
    snapshot.pid = 54321;
    assert_eq!(
        determine_process_ownership(&runtime_state(), Some(&snapshot)),
        ProcessOwnership::External
    );
}
