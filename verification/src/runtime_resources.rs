//! Repairs of the runtime directory from the app bundle: which resources are
//! rebuilt, and what a missing one means.
use crate::paths::DesktopPaths;
use crate::settings::{settings_error_message, SettingsError};
use crate::text::concat_str;
use vstd::prelude::*;

verus! {

/// Where the app bundle keeps the resources the runtime directory is rebuilt
/// from.
#[derive(Clone, Debug)]
pub struct RuntimeResourceSources {
    pub panel_dir: String,
    pub sidecar_executable: String,
}

/// Which runtime resources a repair rebuilt.
#[derive(Clone, Copy, Debug, PartialEq, Eq, Structural)]
pub struct RuntimeRepairReport {
    pub sidecar_rebuilt: bool,
    pub panel_rebuilt: bool,
    pub config_rebuilt: bool,
}

impl Default for RuntimeRepairReport {
    fn default() -> (r: Self)
        ensures
            r == (RuntimeRepairReport { sidecar_rebuilt: false, panel_rebuilt: false, config_rebuilt: false }),
    {
        RuntimeRepairReport { sidecar_rebuilt: false, panel_rebuilt: false, config_rebuilt: false }
    }
}

/// Why a runtime resource could not be put in place.
#[derive(Debug)]
pub enum RuntimeResourceError {
    MissingBundledSidecar(String),
    MissingRuntimeConfig(String),
    Io(String),
    Settings(SettingsError),
}

/// The message of a runtime-resource error.
pub open spec fn runtime_error_message(e: RuntimeResourceError) -> Seq<char> {
    match e {
        RuntimeResourceError::MissingBundledSidecar(p) => "app bundle 中缺少 CliRelay sidecar: "@ + p@,
        RuntimeResourceError::MissingRuntimeConfig(p) => "CliRelay config 文件不存在: "@ + p@,
        RuntimeResourceError::Io(m) => m@,
        RuntimeResourceError::Settings(s) => settings_error_message(s),
    }
}

impl RuntimeResourceError {
    /// The error's message.
    pub fn to_string(&self) -> (r: String)
        ensures
            r@ == runtime_error_message(*self),
    {
        match self {
            RuntimeResourceError::MissingBundledSidecar(p) => concat_str(
                "app bundle 中缺少 CliRelay sidecar: ",
                p.as_str(),
            ),
            RuntimeResourceError::MissingRuntimeConfig(p) => concat_str("CliRelay config 文件不存在: ", p.as_str()),
            RuntimeResourceError::Io(m) => m.clone(),
            RuntimeResourceError::Settings(s) => s.to_string(),
        }
    }
}

/// The CliRelay configuration is never rebuilt: its absence is reported, so
/// that start-up asks the user to import or create one.
pub fn ensure_runtime_config_present(paths: &DesktopPaths, config_is_file: bool) -> (r: Result<(), RuntimeResourceError>)
    ensures
        config_is_file ==> r is Ok,
        !config_is_file ==> (match r {
            Err(RuntimeResourceError::MissingRuntimeConfig(p)) => p@ == paths.config_file@,
            _ => false,
        }),
{
    if config_is_file {
        return Ok(());
    }
    Err(RuntimeResourceError::MissingRuntimeConfig(paths.config_file.clone()))
}

/// Whether the runtime sidecar must be rebuilt from the bundle: not when it is
/// in place (`Ok(false)`); from the bundled one when that exists (`Ok(true)`);
/// otherwise the bundled one is reported missing.
pub fn sidecar_repair_needed(
    runtime_is_file: bool,
    bundled_is_file: bool,
    bundled_sidecar: &str,
) -> (r: Result<bool, RuntimeResourceError>)
    ensures
        runtime_is_file ==> r == Ok::<bool, RuntimeResourceError>(false),
        !runtime_is_file && bundled_is_file ==> r == Ok::<bool, RuntimeResourceError>(true),
        !runtime_is_file && !bundled_is_file ==> (match r {
            Err(RuntimeResourceError::MissingBundledSidecar(p)) => p@ == bundled_sidecar@,
            _ => false,
        }),
{
    if runtime_is_file {
        return Ok(false);
    }
    if !bundled_is_file {
        return Err(RuntimeResourceError::MissingBundledSidecar(crate::text::owned(bundled_sidecar)));
    }
    Ok(true)
}

/// The report of a repair: the configuration is never among what it rebuilt.
pub fn repair_report(sidecar_rebuilt: bool, panel_rebuilt: bool) -> (r: RuntimeRepairReport)
    ensures
        r == (RuntimeRepairReport { sidecar_rebuilt, panel_rebuilt, config_rebuilt: false }),
{
    RuntimeRepairReport { sidecar_rebuilt, panel_rebuilt, config_rebuilt: false }
}

} // verus!
