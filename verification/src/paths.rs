//! Where the desktop app keeps its runtime files, state and logs.
use crate::text::{chars_of, push_all, string_from_chars};
use vstd::prelude::*;

verus! {

pub const APP_DIR_NAME: &'static str = "CliRelay Desktop";

/// `base` with `name` appended as a path component, as `Path::join` does: an
/// absolute `name` replaces `base`, an empty `base` is dropped, and a separator
/// is inserted unless `base` already ends with one.
pub open spec fn path_join(base: Seq<char>, name: Seq<char>) -> Seq<char> {
    if name.len() > 0 && name[0] == '/' {
        name
    } else if base.len() == 0 {
        name
    } else if base.last() == '/' {
        base + name
    } else {
        base + seq!['/'] + name
    }
}

/// `base` joined with `name`.
pub fn join_path(base: &str, name: &str) -> (r: String)
    ensures
        r@ == path_join(base@, name@),
{
    let b = chars_of(base);
    let n = chars_of(name);
    if n.len() > 0 && n[0] == '/' {
        return string_from_chars(n.as_slice());
    }
    if b.len() == 0 {
        return string_from_chars(n.as_slice());
    }
    let mut r = b.clone();
    if b[b.len() - 1] != '/' {
        r.push('/');
    }
    push_all(&mut r, n.as_slice());
    string_from_chars(r.as_slice())
}

/// Every file and directory the desktop app uses.
#[derive(Clone, Debug, PartialEq, Eq)]
pub struct DesktopPaths {
    pub app_data_dir: String,
    pub runtime_dir: String,
    pub runtime_sidecar_dir: String,
    pub runtime_sidecar_executable: String,
    pub state_dir: String,
    pub update_downloads_dir: String,
    pub update_staging_dir: String,
    pub backups_dir: String,
    pub log_dir: String,
    pub desktop_log: String,
    pub clirelay_log: String,
    pub settings_file: String,
    pub runtime_state_file: String,
    pub component_state_file: String,
    pub config_file: String,
    pub panel_dir: String,
}

/// The layout under an application-data directory and a log directory.
pub open spec fn paths_layout(p: DesktopPaths, app_data_dir: Seq<char>, log_dir: Seq<char>) -> bool {
    let runtime = path_join(app_data_dir, "runtime"@);
    let sidecar = path_join(runtime, "sidecar"@);
    let state = path_join(app_data_dir, "state"@);
    &&& p.app_data_dir@ == app_data_dir
    &&& p.runtime_dir@ == runtime
    &&& p.runtime_sidecar_dir@ == sidecar
    &&& p.runtime_sidecar_executable@ == path_join(sidecar, "cli-proxy-api"@)
    &&& p.state_dir@ == state
    &&& p.update_downloads_dir@ == path_join(state, "downloads"@)
    &&& p.update_staging_dir@ == path_join(state, "update-staging"@)
    &&& p.backups_dir@ == path_join(app_data_dir, "backups"@)
    &&& p.log_dir@ == log_dir
    &&& p.desktop_log@ == path_join(log_dir, "desktop.log"@)
    &&& p.clirelay_log@ == path_join(log_dir, "clirelay.log"@)
    &&& p.settings_file@ == path_join(state, "desktop-settings.json"@)
    &&& p.runtime_state_file@ == path_join(state, "runtime-state.json"@)
    &&& p.component_state_file@ == path_join(state, "component-state.json"@)
    &&& p.config_file@ == path_join(runtime, "config.yaml"@)
    &&& p.panel_dir@ == path_join(runtime, "panel"@)
}

/// The application-data directory under a home directory.
pub open spec fn home_app_data_dir(home: Seq<char>) -> Seq<char> {
    path_join(path_join(path_join(home, "Library"@), "Application Support"@), APP_DIR_NAME@)
}

/// The log directory under a home directory.
pub open spec fn home_log_dir(home: Seq<char>) -> Seq<char> {
    path_join(path_join(path_join(home, "Library"@), "Logs"@), APP_DIR_NAME@)
}

impl DesktopPaths {
    /// The macOS layout under a home directory: application data under
    /// `Library/Application Support`, logs under `Library/Logs`.
    pub fn from_home_dir(home_dir: &str) -> (r: Self)
        ensures
            paths_layout(r, home_app_data_dir(home_dir@), home_log_dir(home_dir@)),
    {
        let library = join_path(home_dir, "Library");
        let support = join_path(library.as_str(), "Application Support");
        let app_data_dir = join_path(support.as_str(), APP_DIR_NAME);
        let logs = join_path(library.as_str(), "Logs");
        let log_dir = join_path(logs.as_str(), APP_DIR_NAME);
        Self::from_base_dirs(app_data_dir, log_dir)
    }

    /// The layout under the given application-data and log directories.
    pub fn from_base_dirs(app_data_dir: String, log_dir: String) -> (r: Self)
        ensures
            paths_layout(r, app_data_dir@, log_dir@),
    {
        let runtime_dir = join_path(app_data_dir.as_str(), "runtime");
        let runtime_sidecar_dir = join_path(runtime_dir.as_str(), "sidecar");
        let state_dir = join_path(app_data_dir.as_str(), "state");
        let backups_dir = join_path(app_data_dir.as_str(), "backups");
        Self {
            runtime_sidecar_executable: join_path(runtime_sidecar_dir.as_str(), "cli-proxy-api"),
            update_downloads_dir: join_path(state_dir.as_str(), "downloads"),
            update_staging_dir: join_path(state_dir.as_str(), "update-staging"),
            desktop_log: join_path(log_dir.as_str(), "desktop.log"),
            clirelay_log: join_path(log_dir.as_str(), "clirelay.log"),
            settings_file: join_path(state_dir.as_str(), "desktop-settings.json"),
            runtime_state_file: join_path(state_dir.as_str(), "runtime-state.json"),
            component_state_file: join_path(state_dir.as_str(), "component-state.json"),
            config_file: join_path(runtime_dir.as_str(), "config.yaml"),
            panel_dir: join_path(runtime_dir.as_str(), "panel"),
            app_data_dir,
            runtime_dir,
            runtime_sidecar_dir,
            state_dir,
            backups_dir,
            log_dir,
        }
    }

    /// The same layout as [`DesktopPaths::from_base_dirs`], for tests.
    pub fn for_test(app_data_dir: String, log_dir: String) -> (r: Self)
        ensures
            paths_layout(r, app_data_dir@, log_dir@),
    {
        Self::from_base_dirs(app_data_dir, log_dir)
    }
}

/// State files live beside each other in the state directory, never in the
/// runtime directory that component updates replace.
pub proof fn lemma_state_files_live_in_state_dir(p: DesktopPaths, app_data_dir: Seq<char>, log_dir: Seq<char>)
    requires
        paths_layout(p, app_data_dir, log_dir),
    ensures
        p.runtime_state_file@ == path_join(p.state_dir@, "runtime-state.json"@),
        p.component_state_file@ == path_join(p.state_dir@, "component-state.json"@),
        p.settings_file@ == path_join(p.state_dir@, "desktop-settings.json"@),
        p.config_file@ == path_join(p.runtime_dir@, "config.yaml"@),
{
}

} // verus!
