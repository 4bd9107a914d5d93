//! Whether a process found at start-up is the one this app launched.
use crate::text::str_eq;
use crate::time::UtcTime;
use vstd::prelude::*;

verus! {

/// What the app recorded about the sidecar it launched.
#[derive(Clone, Debug)]
pub struct RuntimeState {
    pub pid: u32,
    pub started_at: UtcTime,
    pub executable_path: String,
    pub executable_sha256: String,
    pub port: u16,
    pub desktop_version: String,
    /// The launch's UUID, as its 128-bit value.
    pub launch_id: u128,
}

/// Who the process on record belongs to.
#[derive(Clone, Copy, Debug, PartialEq, Eq, Structural)]
pub enum ProcessOwnership {
    Owned,
    External,
    Stale,
    Unknown,
}

/// What the system reports about a live process.
#[derive(Clone, Debug)]
pub struct ProcessSnapshot {
    pub pid: u32,
    pub started_at: UtcTime,
    pub executable_path: String,
    pub executable_sha256: String,
}

/// The live process is the recorded one: same pid, start time, executable
/// path and executable digest.
pub open spec fn same_process(state: RuntimeState, snapshot: ProcessSnapshot) -> bool {
    &&& snapshot.pid == state.pid
    &&& snapshot.started_at == state.started_at
    &&& snapshot.executable_path@ == state.executable_path@
    &&& snapshot.executable_sha256@ == state.executable_sha256@
}

/// No live process: the record is stale. A live process that differs from the
/// record in any respect is someone else's. Otherwise it is the app's own.
pub fn determine_process_ownership(
    runtime_state: &RuntimeState,
    process_snapshot: Option<&ProcessSnapshot>,
) -> (r: ProcessOwnership)
    ensures
        r == match process_snapshot {
            None => ProcessOwnership::Stale,
            Some(s) => if same_process(*runtime_state, *s) {
                ProcessOwnership::Owned
            } else {
                ProcessOwnership::External
            },
        },
{
    let snapshot = match process_snapshot {
        None => {
            return ProcessOwnership::Stale;
        },
        Some(s) => s,
    };
    if snapshot.pid != runtime_state.pid || snapshot.started_at != runtime_state.started_at
        || !str_eq(snapshot.executable_path.as_str(), runtime_state.executable_path.as_str())
        || !str_eq(snapshot.executable_sha256.as_str(), runtime_state.executable_sha256.as_str()) {
        return ProcessOwnership::External;
    }
    ProcessOwnership::Owned
}

} // verus!
