//! The rules behind the desktop commands: which commands exist, how a
//! settings patch applies, the endpoints handed out, and the bookkeeping of
//! component-update preparation.
use crate::component_update::{
    component_error_message, ComponentUpdateError, PreparedComponentArtifact, PreparedComponentUpdate,
};
use crate::paths::{join_path, path_join};
use crate::service::manager::{manager_error_message, status_name, status_name_str, ManagerError, ServiceSnapshot};
use crate::service::ownership::ProcessOwnership;
use crate::service::state::ServiceStatus;
use crate::settings::{
    settings_error_message, DesktopLocale, DesktopSettings, DesktopSettingsView, SettingsError,
    MIN_SERVICE_PORT,
};
use crate::text::{
    chars_of, concat_str, decimal, decimal_chars, is_blank, is_blank_chars, owned, push_all, push_str,
    str_eq, string_from_chars,
};
use crate::time::UtcTime;
use crate::update_check::{error_message, UpdateCheckError, UpstreamComponent, UpstreamInstallScope};
use crate::web_url::opt_string_view;
use vstd::prelude::*;

verus! {

/// The commands the front end may invoke, in registration order.
pub const SAFE_COMMAND_NAMES: [&'static str; 22] = [
    "get_service_snapshot",
    "start_service",
    "stop_service",
    "restart_service",
    "open_panel",
    "open_settings",
    "open_log_directory",
    "open_data_directory",
    "copy_endpoint",
    "copy_v1_endpoint",
    "get_desktop_settings",
    "update_desktop_settings",
    "get_runtime_config_status",
    "import_runtime_config",
    "initialize_default_runtime_config",
    "get_management_secret_status",
    "set_management_secret_key",
    "quit_desktop",
    "check_for_updates",
    "get_component_update_preparation",
    "prepare_upstream_component_updates",
    "apply_prepared_component_updates",
];

/// Why a command failed.
#[derive(Clone, Debug, PartialEq, Eq)]
pub enum CommandError {
    NotInitialized,
    StateLockPoisoned,
    PanelNotReady(ServiceStatus),
    ForbiddenSettingsField(String),
    InvalidSettingsPatch(String),
    InvalidPort(u16),
    PortChangeRequiresStopped,
    Io(String),
    Settings(String),
    Manager(String),
    Update(String),
    ComponentUpdate(String),
    Path(String),
    Window(String),
    Open(String),
}

/// The message of a command error.
pub open spec fn command_error_message(e: CommandError) -> Seq<char> {
    match e {
        CommandError::NotInitialized => "Desktop command state 尚未初始化"@,
        CommandError::StateLockPoisoned => "Desktop command state 锁已损坏"@,
        CommandError::PanelNotReady(s) => "Panel 尚未 ready，当前服务状态: "@ + status_name(s),
        CommandError::ForbiddenSettingsField(f) => "不允许修改设置字段: "@ + f@,
        CommandError::InvalidSettingsPatch(m) => "设置 patch 无效: "@ + m@,
        CommandError::InvalidPort(p) => "端口必须在 1024-65535 范围内: "@ + decimal(p as nat),
        CommandError::PortChangeRequiresStopped => "修改端口前必须先停止服务"@,
        CommandError::Io(m) => m@,
        CommandError::Settings(m) => m@,
        CommandError::Manager(m) => m@,
        CommandError::Update(m) => m@,
        CommandError::ComponentUpdate(m) => m@,
        CommandError::Path(m) => m@,
        CommandError::Window(m) => m@,
        CommandError::Open(m) => m@,
    }
}

impl CommandError {
    /// The error's message.
    pub fn to_string(&self) -> (r: String)
        ensures
            r@ == command_error_message(*self),
    {
        match self {
            CommandError::NotInitialized => owned("Desktop command state 尚未初始化"),
            CommandError::StateLockPoisoned => owned("Desktop command state 锁已损坏"),
            CommandError::PanelNotReady(s) => concat_str("Panel 尚未 ready，当前服务状态: ", status_name_str(*s)),
            CommandError::ForbiddenSettingsField(f) => concat_str("不允许修改设置字段: ", f.as_str()),
            CommandError::InvalidSettingsPatch(m) => concat_str("设置 patch 无效: ", m.as_str()),
            CommandError::InvalidPort(p) => {
                let mut v = chars_of("端口必须在 1024-65535 范围内: ");
                let d = decimal_chars(*p as u64);
                push_all(&mut v, d.as_slice());
                string_from_chars(v.as_slice())
            },
            CommandError::PortChangeRequiresStopped => owned("修改端口前必须先停止服务"),
            CommandError::Io(m) => m.clone(),
            CommandError::Settings(m) => m.clone(),
            CommandError::Manager(m) => m.clone(),
            CommandError::Update(m) => m.clone(),
            CommandError::ComponentUpdate(m) => m.clone(),
            CommandError::Path(m) => m.clone(),
            CommandError::Window(m) => m.clone(),
            CommandError::Open(m) => m.clone(),
        }
    }

    /// A settings failure, carried as its message.
    pub fn from_settings(error: SettingsError) -> (r: Self)
        ensures
            r matches CommandError::Settings(m) && m@ == settings_error_message(error),
    {
        CommandError::Settings(error.to_string())
    }

    /// A supervisor failure, carried as its message.
    pub fn from_manager(error: ManagerError) -> (r: Self)
        ensures
            r matches CommandError::Manager(m) && m@ == manager_error_message(error),
    {
        CommandError::Manager(error.to_string())
    }

    /// An update-check failure, carried as its message.
    pub fn from_update_check(error: UpdateCheckError) -> (r: Self)
        ensures
            r matches CommandError::Update(m) && m@ == error_message(error@),
    {
        CommandError::Update(error.to_string())
    }

    /// A component-update failure, carried as its message.
    pub fn from_component_update(error: ComponentUpdateError) -> (r: Self)
        ensures
            r matches CommandError::ComponentUpdate(m) && m@ == component_error_message(error),
    {
        CommandError::ComponentUpdate(error.to_string())
    }
}

/// The settings a front end may change; `None` leaves a setting as it is.
#[derive(Clone, Copy, Debug, PartialEq, Eq, Structural)]
pub struct DesktopSettingsPatch {
    pub auto_start_app: Option<bool>,
    pub auto_start_service: Option<bool>,
    pub open_panel_on_start: Option<bool>,
    pub port: Option<u16>,
    pub auto_check_new_versions: Option<bool>,
    pub locale: Option<DesktopLocale>,
}

impl Default for DesktopSettingsPatch {
    /// A patch that changes nothing.
    fn default() -> (r: Self)
        ensures
            r == (DesktopSettingsPatch {
                auto_start_app: None,
                auto_start_service: None,
                open_panel_on_start: None,
                port: None,
                auto_check_new_versions: None,
                locale: None,
            }),
    {
        DesktopSettingsPatch {
            auto_start_app: None,
            auto_start_service: None,
            open_panel_on_start: None,
            port: None,
            auto_check_new_versions: None,
            locale: None,
        }
    }
}

/// The fields a patch may name.
pub open spec fn patch_field(name: Seq<char>) -> bool {
    name == "auto_start_app"@ || name == "auto_start_service"@ || name == "open_panel_on_start"@
        || name == "port"@ || name == "auto_check_new_versions"@ || name == "locale"@
}

fn is_patch_field(name: &str) -> (r: bool)
    ensures
        r == patch_field(name@),
{
    str_eq(name, "auto_start_app") || str_eq(name, "auto_start_service") || str_eq(
        name,
        "open_panel_on_start",
    ) || str_eq(name, "port") || str_eq(name, "auto_check_new_versions") || str_eq(name, "locale")
}

/// Refuses a patch that names any other field, reporting the first such name
/// in the order given (the object's keys in sorted order).
pub fn check_patch_fields(keys: &Vec<String>) -> (r: Result<(), CommandError>)
    ensures
        (forall|i: int| 0 <= i < keys@.len() ==> patch_field(#[trigger] keys@[i]@)) ==> r is Ok,
        r is Err ==> exists|i: int|
            0 <= i < keys@.len() && !patch_field(#[trigger] keys@[i]@) && (forall|j: int|
                0 <= j < i ==> patch_field(#[trigger] keys@[j]@)) && (r matches Err(
                CommandError::ForbiddenSettingsField(f),
            ) && f@ == keys@[i]@),
        r is Ok ==> forall|i: int| 0 <= i < keys@.len() ==> patch_field(#[trigger] keys@[i]@),
{
    let mut i: usize = 0;
    while i < keys.len()
        invariant
            0 <= i <= keys@.len(),
            forall|j: int| 0 <= j < i ==> patch_field(#[trigger] keys@[j]@),
        decreases keys@.len() - i,
    {
        if !is_patch_field(keys[i].as_str()) {
            let r = Err(CommandError::ForbiddenSettingsField(keys[i].clone()));
            assert(!patch_field(keys@[i as int]@));
            return r;
        }
        i = i + 1;
    }
    Ok(())
}

/// A setting after a patch entry: the entry's value when present.
pub open spec fn patched_value<T>(entry: Option<T>, current: T) -> T {
    match entry {
        Some(v) => v,
        None => current,
    }
}

/// The settings with every present entry of the patch applied.
pub open spec fn patched_settings(cur: DesktopSettingsView, p: DesktopSettingsPatch) -> DesktopSettingsView {
    DesktopSettingsView {
        auto_start_app: patched_value(p.auto_start_app, cur.auto_start_app),
        auto_start_service: patched_value(p.auto_start_service, cur.auto_start_service),
        open_panel_on_start: patched_value(p.open_panel_on_start, cur.open_panel_on_start),
        auto_check_new_versions: patched_value(p.auto_check_new_versions, cur.auto_check_new_versions),
        locale: patched_value(p.locale, cur.locale),
        port: patched_value(p.port, cur.port),
        ..cur
    }
}

/// A patch sets every entry it names to the value it gives and leaves every
/// other setting as it was.
pub proof fn lemma_patch_sets_what_it_names(cur: DesktopSettingsView, p: DesktopSettingsPatch)
    ensures
        ({
            let r = patched_settings(cur, p);
            &&& r.auto_start_app == (if p.auto_start_app is Some {
                p.auto_start_app->0
            } else {
                cur.auto_start_app
            })
            &&& r.auto_start_service == (if p.auto_start_service is Some {
                p.auto_start_service->0
            } else {
                cur.auto_start_service
            })
            &&& r.open_panel_on_start == (if p.open_panel_on_start is Some {
                p.open_panel_on_start->0
            } else {
                cur.open_panel_on_start
            })
            &&& r.auto_check_new_versions == (if p.auto_check_new_versions is Some {
                p.auto_check_new_versions->0
            } else {
                cur.auto_check_new_versions
            })
            &&& r.locale == (if p.locale is Some {
                p.locale->0
            } else {
                cur.locale
            })
            &&& r.port == (if p.port is Some {
                p.port->0
            } else {
                cur.port
            })
            &&& r.schema_version == cur.schema_version
            &&& r.first_run_completed == cur.first_run_completed
            &&& r.last_update_check_at == cur.last_update_check_at
            &&& r.last_update_check_result == cur.last_update_check_result
        }),
{
}

/// Applies a patch. A new port is accepted only while the service is stopped
/// and only from 1024 up; every other entry always applies.
pub fn apply_desktop_settings_patch(
    current: &DesktopSettings,
    service_status: ServiceStatus,
    patch: DesktopSettingsPatch,
) -> (r: Result<DesktopSettings, CommandError>)
    ensures
        match patch.port {
            Some(port) => if service_status != ServiceStatus::Stopped {
                r == Err::<DesktopSettings, CommandError>(CommandError::PortChangeRequiresStopped)
            } else if port < MIN_SERVICE_PORT {
                r == Err::<DesktopSettings, CommandError>(CommandError::InvalidPort(port))
            } else {
                r matches Ok(s) && s@ == patched_settings(current@, patch)
            },
            None => r matches Ok(s) && s@ == patched_settings(current@, patch),
        },
{
    let mut updated = current.copy();
    if let Some(v) = patch.auto_start_app {
        updated.auto_start_app = v;
    }
    if let Some(v) = patch.auto_start_service {
        updated.auto_start_service = v;
    }
    if let Some(v) = patch.open_panel_on_start {
        updated.open_panel_on_start = v;
    }
    if let Some(v) = patch.auto_check_new_versions {
        updated.auto_check_new_versions = v;
    }
    if let Some(v) = patch.locale {
        updated.locale = v;
    }
    if let Some(port) = patch.port {
        if service_status != ServiceStatus::Stopped {
            return Err(CommandError::PortChangeRequiresStopped);
        }
        if DesktopSettings::validate_port(port).is_err() {
            return Err(CommandError::InvalidPort(port));
        }
        updated.port = port;
    }
    Ok(updated)
}

/// The loopback address of the service on `port`.
pub open spec fn loopback_endpoint(port: u16) -> Seq<char> {
    "http://127.0.0.1:"@ + decimal(port as nat)
}

/// The service's base URL, on the loopback interface.
pub fn endpoint_url(snapshot: &ServiceSnapshot) -> (r: String)
    ensures
        r@ == loopback_endpoint(snapshot.port),
{
    let mut v = chars_of("http://127.0.0.1:");
    let d = decimal_chars(snapshot.port as u64);
    push_all(&mut v, d.as_slice());
    string_from_chars(v.as_slice())
}

/// The service's OpenAI-compatible base URL: the endpoint with `/v1`.
pub fn v1_endpoint_url(snapshot: &ServiceSnapshot) -> (r: String)
    ensures
        r@ == loopback_endpoint(snapshot.port) + "/v1"@,
{
    let base = endpoint_url(snapshot);
    concat_str(base.as_str(), "/v1")
}

/// What a request to open the panel shows: the running service's port and
/// panel URL. Any other status has no panel to show yet.
pub fn panel_target(snapshot: &ServiceSnapshot) -> (r: Result<(u16, String), CommandError>)
    ensures
        snapshot.status == ServiceStatus::Running ==> (r matches Ok((port, url)) && port == snapshot.port
            && url@ == snapshot.panel_url@),
        snapshot.status != ServiceStatus::Running ==> r == Err::<(u16, String), CommandError>(
            CommandError::PanelNotReady(snapshot.status),
        ),
{
    if snapshot.status != ServiceStatus::Running {
        return Err(CommandError::PanelNotReady(snapshot.status));
    }
    Ok((snapshot.port, owned(snapshot.panel_url.as_str())))
}

/// A management secret may not be blank; it is kept exactly as given.
pub fn validate_management_secret_key(value: &str) -> (r: Result<&str, CommandError>)
    ensures
        !is_blank(value@) ==> r == Ok::<&str, CommandError>(value),
        is_blank(value@) ==> (r matches Err(CommandError::InvalidSettingsPatch(m)) && m@
            == "管理密钥不能为空"@),
{
    let v = chars_of(value);
    if is_blank_chars(v.as_slice()) {
        return Err(CommandError::InvalidSettingsPatch(owned("管理密钥不能为空")));
    }
    Ok(value)
}

/// Where a background preparation of component updates stands.
#[derive(Clone, Copy, Debug, PartialEq, Eq, Structural)]
pub enum ComponentPreparationStatus {
    Idle,
    Preparing,
    Ready,
    Failed,
}

impl Default for ComponentPreparationStatus {
    fn default() -> (r: Self)
        ensures
            r == ComponentPreparationStatus::Idle,
    {
        ComponentPreparationStatus::Idle
    }
}

/// What the front end is told about a preparation.
#[derive(Clone, Debug)]
pub struct ComponentUpdatePreparationSnapshot {
    pub status: ComponentPreparationStatus,
    pub install_scope: UpstreamInstallScope,
    pub message: String,
    pub started_at: Option<UtcTime>,
    pub finished_at: Option<UtcTime>,
    pub error: Option<String>,
}

/// A preparation snapshot as plain values.
pub struct PreparationView {
    pub status: ComponentPreparationStatus,
    pub install_scope: UpstreamInstallScope,
    pub message: Seq<char>,
    pub started_at: Option<UtcTime>,
    pub finished_at: Option<UtcTime>,
    pub error: Option<Seq<char>>,
}

impl View for ComponentUpdatePreparationSnapshot {
    type V = PreparationView;

    open spec fn view(&self) -> PreparationView {
        PreparationView {
            status: self.status,
            install_scope: self.install_scope,
            message: self.message@,
            started_at: self.started_at,
            finished_at: self.finished_at,
            error: opt_string_view(self.error),
        }
    }
}

/// The snapshot when nothing has been prepared.
pub open spec fn idle_preparation() -> PreparationView {
    PreparationView {
        status: ComponentPreparationStatus::Idle,
        install_scope: UpstreamInstallScope::Neither,
        message: Seq::empty(),
        started_at: None,
        finished_at: None,
        error: None,
    }
}

impl Default for ComponentUpdatePreparationSnapshot {
    fn default() -> (r: Self)
        ensures
            r@ == idle_preparation(),
    {
        ComponentUpdatePreparationSnapshot {
            status: ComponentPreparationStatus::Idle,
            install_scope: UpstreamInstallScope::Neither,
            message: String::new(),
            started_at: None,
            finished_at: None,
            error: None,
        }
    }
}

impl ComponentUpdatePreparationSnapshot {
    pub fn copy(&self) -> (r: Self)
        ensures
            r@ == self@,
    {
        ComponentUpdatePreparationSnapshot {
            status: self.status,
            install_scope: self.install_scope,
            message: self.message.clone(),
            started_at: self.started_at,
            finished_at: self.finished_at,
            error: crate::update_check::copy_opt_string(&self.error),
        }
    }
}

/// How applying prepared updates ended.
#[derive(Clone, Copy, Debug, PartialEq, Eq, Structural)]
pub enum ComponentApplyStatus {
    Applied,
    NoPreparedUpdate,
}

/// The answer to a request to apply prepared updates.
#[derive(Clone, Debug)]
pub struct ComponentApplyResult {
    pub status: ComponentApplyStatus,
    pub message: String,
    pub applied_scope: UpstreamInstallScope,
}

/// Nothing was prepared, so nothing was applied.
pub fn no_prepared_update_result() -> (r: ComponentApplyResult)
    ensures
        r.status == ComponentApplyStatus::NoPreparedUpdate,
        r.message@ == "没有已准备好的组件更新"@,
        r.applied_scope == UpstreamInstallScope::Neither,
{
    ComponentApplyResult {
        status: ComponentApplyStatus::NoPreparedUpdate,
        message: owned("没有已准备好的组件更新"),
        applied_scope: UpstreamInstallScope::Neither,
    }
}

/// The prepared updates of `scope` were applied; the app restarts.
pub fn applied_result(scope: UpstreamInstallScope) -> (r: ComponentApplyResult)
    ensures
        r.status == ComponentApplyStatus::Applied,
        r.message@ == "组件更新已应用，正在重启 Desktop"@,
        r.applied_scope == scope,
{
    ComponentApplyResult {
        status: ComponentApplyStatus::Applied,
        message: owned("组件更新已应用，正在重启 Desktop"),
        applied_scope: scope,
    }
}

pub const NOTHING_TO_PREPARE: &'static str = "没有可准备的上游组件更新";
pub const PREPARING_MESSAGE: &'static str = "正在后台准备组件更新";
pub const PREPARED_MESSAGE: &'static str = "组件更新已准备好，点击重启完成替换";
pub const PREPARATION_FAILED_MESSAGE: &'static str = "组件更新准备失败";
pub const ONLY_OWNED_CLIRELAY_MESSAGE: &'static str = "只允许更新 Desktop 自管 CliRelay 服务";
pub const STOPPED_FOR_APPLY_LOG_LINE: &'static str = "组件更新已停止 CliRelay，Desktop 重启后由启动策略恢复服务";

/// The preparation record: the snapshot shown and the prepared updates held.
pub struct ComponentPreparationRuntime {
    snapshot: ComponentUpdatePreparationSnapshot,
    prepared: Option<PreparedComponentUpdate>,
}

impl ComponentPreparationRuntime {
    pub closed spec fn shown(&self) -> PreparationView {
        self.snapshot@
    }

    pub closed spec fn held(&self) -> Option<PreparedComponentUpdate> {
        self.prepared
    }

    /// Nothing prepared and nothing under way.
    pub fn new() -> (r: Self)
        ensures
            r.shown() == idle_preparation(),
            r.held() is None,
    {
        ComponentPreparationRuntime {
            snapshot: ComponentUpdatePreparationSnapshot::default(),
            prepared: None,
        }
    }

    pub fn snapshot(&self) -> (r: ComponentUpdatePreparationSnapshot)
        ensures
            r@ == self.shown(),
    {
        self.snapshot.copy()
    }

    /// Asks for a preparation of `scope` starting at `started_at`. An empty
    /// scope is refused. A preparation under way is left alone and reported
    /// (second result `false`: start no work). Otherwise anything held is
    /// dropped and the record shows the new preparation (second result `true`).
    pub fn begin(&mut self, scope: UpstreamInstallScope, started_at: UtcTime) -> (r: Result<
        (ComponentUpdatePreparationSnapshot, bool),
        CommandError,
    >)
        ensures
            scope == UpstreamInstallScope::Neither ==> (r matches Err(CommandError::ComponentUpdate(m))
                && m@ == NOTHING_TO_PREPARE@) && final(self).shown() == old(self).shown()
                && final(self).held() == old(self).held(),
            scope != UpstreamInstallScope::Neither && old(self).shown().status
                == ComponentPreparationStatus::Preparing ==> (r matches Ok((s, start)) && s@ == old(
                self,
            ).shown() && !start) && final(self).shown() == old(self).shown() && final(self).held()
                == old(self).held(),
            scope != UpstreamInstallScope::Neither && old(self).shown().status
                != ComponentPreparationStatus::Preparing ==> (r matches Ok((s, start)) && start && s@
                == final(self).shown()) && final(self).held() is None && final(self).shown() == (
            PreparationView {
                status: ComponentPreparationStatus::Preparing,
                install_scope: scope,
                message: PREPARING_MESSAGE@,
                started_at: Some(started_at),
                finished_at: None,
                error: None,
            }),
    {
        if scope == UpstreamInstallScope::Neither {
            return Err(CommandError::ComponentUpdate(owned(NOTHING_TO_PREPARE)));
        }
        if self.snapshot.status == ComponentPreparationStatus::Preparing {
            return Ok((self.snapshot.copy(), false));
        }
        self.prepared = None;
        self.snapshot =
            ComponentUpdatePreparationSnapshot {
                status: ComponentPreparationStatus::Preparing,
                install_scope: scope,
                message: owned(PREPARING_MESSAGE),
                started_at: Some(started_at),
                finished_at: None,
                error: None,
            };
        Ok((self.snapshot.copy(), true))
    }

    /// Records how the background preparation of `scope` ended: the prepared
    /// updates are held and shown as ready, or a failure is shown with its
    /// message and nothing is held.
    pub fn finish(
        &mut self,
        result: Result<PreparedComponentUpdate, CommandError>,
        scope: UpstreamInstallScope,
        started_at: UtcTime,
        finished_at: UtcTime,
    )
        ensures
            match result {
                Ok(p) => final(self).held() == Some(p) && final(self).shown() == (PreparationView {
                    status: ComponentPreparationStatus::Ready,
                    install_scope: p.install_scope,
                    message: PREPARED_MESSAGE@,
                    started_at: Some(started_at),
                    finished_at: Some(finished_at),
                    error: None,
                }),
                Err(e) => final(self).held() is None && final(self).shown() == (PreparationView {
                    status: ComponentPreparationStatus::Failed,
                    install_scope: scope,
                    message: PREPARATION_FAILED_MESSAGE@,
                    started_at: Some(started_at),
                    finished_at: Some(finished_at),
                    error: Some(command_error_message(e)),
                }),
            },
    {
        match result {
            Ok(prepared) => {
                let prepared_scope = prepared.install_scope;
                self.prepared = Some(prepared);
                self.snapshot =
                    ComponentUpdatePreparationSnapshot {
                        status: ComponentPreparationStatus::Ready,
                        install_scope: prepared_scope,
                        message: owned(PREPARED_MESSAGE),
                        started_at: Some(started_at),
                        finished_at: Some(finished_at),
                        error: None,
                    };
            },
            Err(error) => {
                self.prepared = None;
                self.snapshot =
                    ComponentUpdatePreparationSnapshot {
                        status: ComponentPreparationStatus::Failed,
                        install_scope: scope,
                        message: owned(PREPARATION_FAILED_MESSAGE),
                        started_at: Some(started_at),
                        finished_at: Some(finished_at),
                        error: Some(error.to_string()),
                    };
            },
        }
    }

    /// Hands out the prepared updates, holding nothing afterwards.
    pub fn take_prepared(&mut self) -> (r: Option<PreparedComponentUpdate>)
        ensures
            r == old(self).held(),
            final(self).held() is None,
            final(self).shown() == old(self).shown(),
    {
        self.prepared.take()
    }

    /// Holds prepared updates again after applying them failed.
    pub fn restore_prepared(&mut self, prepared: PreparedComponentUpdate)
        ensures
            final(self).held() == Some(prepared),
            final(self).shown() == old(self).shown(),
    {
        self.prepared = Some(prepared);
    }

    /// Forgets everything after the updates were applied.
    pub fn reset(&mut self)
        ensures
            final(self).held() is None,
            final(self).shown() == idle_preparation(),
    {
        self.snapshot = ComponentUpdatePreparationSnapshot::default();
        self.prepared = None;
    }
}

/// Whether an install scope covers a component.
pub open spec fn scope_covers(scope: UpstreamInstallScope, component: UpstreamComponent) -> bool {
    match component {
        UpstreamComponent::CliRelay => scope == UpstreamInstallScope::CliRelay || scope
            == UpstreamInstallScope::Both,
        UpstreamComponent::CodeProxy => scope == UpstreamInstallScope::CodeProxy || scope
            == UpstreamInstallScope::Both,
    }
}

pub fn covers_component(scope: UpstreamInstallScope, component: UpstreamComponent) -> (r: bool)
    ensures
        r == scope_covers(scope, component),
{
    match component {
        UpstreamComponent::CliRelay => scope == UpstreamInstallScope::CliRelay || scope
            == UpstreamInstallScope::Both,
        UpstreamComponent::CodeProxy => scope == UpstreamInstallScope::CodeProxy || scope
            == UpstreamInstallScope::Both,
    }
}

/// The scope of what was installed: which of the two components went in.
pub open spec fn scope_of(clirelay: bool, code_proxy: bool) -> UpstreamInstallScope {
    if clirelay && code_proxy {
        UpstreamInstallScope::Both
    } else if clirelay {
        UpstreamInstallScope::CliRelay
    } else if code_proxy {
        UpstreamInstallScope::CodeProxy
    } else {
        UpstreamInstallScope::Neither
    }
}

pub fn installed_scope(clirelay: bool, code_proxy: bool) -> (r: UpstreamInstallScope)
    ensures
        r == scope_of(clirelay, code_proxy),
{
    match (clirelay, code_proxy) {
        (true, true) => UpstreamInstallScope::Both,
        (true, false) => UpstreamInstallScope::CliRelay,
        (false, true) => UpstreamInstallScope::CodeProxy,
        (false, false) => UpstreamInstallScope::Neither,
    }
}

/// The scope of what was installed covers exactly the components that were
/// installed, and a scope is the scope of the components it covers.
pub proof fn lemma_scope_round_trip(clirelay: bool, code_proxy: bool, scope: UpstreamInstallScope)
    ensures
        scope_covers(scope_of(clirelay, code_proxy), UpstreamComponent::CliRelay) == clirelay,
        scope_covers(scope_of(clirelay, code_proxy), UpstreamComponent::CodeProxy) == code_proxy,
        scope_of(
            scope_covers(scope, UpstreamComponent::CliRelay),
            scope_covers(scope, UpstreamComponent::CodeProxy),
        ) == scope,
{
}

/// The prepared updates of a scope: refused when neither component had an
/// update to prepare.
pub fn prepared_update(
    scope: UpstreamInstallScope,
    clirelay: Option<PreparedComponentArtifact>,
    code_proxy: Option<PreparedComponentArtifact>,
    prepared_at: UtcTime,
) -> (r: Result<PreparedComponentUpdate, CommandError>)
    ensures
        clirelay is None && code_proxy is None ==> (r matches Err(CommandError::ComponentUpdate(m))
            && m@ == NOTHING_TO_PREPARE@),
        !(clirelay is None && code_proxy is None) ==> r == Ok::<PreparedComponentUpdate, CommandError>(
            PreparedComponentUpdate { install_scope: scope, clirelay, code_proxy, prepared_at },
        ),
{
    if clirelay.is_none() && code_proxy.is_none() {
        return Err(CommandError::ComponentUpdate(owned(NOTHING_TO_PREPARE)));
    }
    Ok(PreparedComponentUpdate { install_scope: scope, clirelay, code_proxy, prepared_at })
}

/// Before a prepared CliRelay replaces the running one: a running (healthy or
/// not) service must be the app's own and is stopped first (`Ok(true)`); an
/// external or transitional service refuses; a stopped or failed one needs
/// nothing (`Ok(false)`).
pub fn clirelay_apply_check(status: ServiceStatus, ownership: ProcessOwnership) -> (r: Result<bool, CommandError>)
    ensures
        (status == ServiceStatus::Running || status == ServiceStatus::Unhealthy) && ownership
            == ProcessOwnership::Owned ==> r == Ok::<bool, CommandError>(true),
        (status == ServiceStatus::Running || status == ServiceStatus::Unhealthy) && ownership
            != ProcessOwnership::Owned ==> (r matches Err(CommandError::ComponentUpdate(m)) && m@
            == ONLY_OWNED_CLIRELAY_MESSAGE@),
        (status == ServiceStatus::External || status == ServiceStatus::Starting || status
            == ServiceStatus::Stopping) ==> (r matches Err(CommandError::ComponentUpdate(m)) && m@
            == component_error_message(ComponentUpdateError::InvalidServiceStatus(status))),
        (status == ServiceStatus::Stopped || status == ServiceStatus::Error) ==> r == Ok::<
            bool,
            CommandError,
        >(false),
{
    match status {
        ServiceStatus::Running | ServiceStatus::Unhealthy => {
            if ownership != ProcessOwnership::Owned {
                return Err(CommandError::ComponentUpdate(owned(ONLY_OWNED_CLIRELAY_MESSAGE)));
            }
            Ok(true)
        },
        ServiceStatus::External | ServiceStatus::Starting | ServiceStatus::Stopping => {
            Err(CommandError::from_component_update(ComponentUpdateError::InvalidServiceStatus(status)))
        },
        ServiceStatus::Stopped | ServiceStatus::Error => Ok(false),
    }
}

/// The first candidate that exists, or the first candidate when none does.
pub open spec fn first_existing(paths: Seq<Seq<char>>, exists: Seq<bool>) -> Seq<char> {
    match crate::text::first_from(paths.len() as int, |i: int| exists[i], 0) {
        Some(k) => paths[k],
        None => paths[0],
    }
}

/// Picks the first candidate path that exists (`exists[i]` tells whether
/// `paths[i]` does), falling back to the first candidate.
pub fn first_existing_path(paths: &Vec<String>, exists: &Vec<bool>) -> (r: String)
    requires
        paths@.len() >= 1,
        exists@.len() == paths@.len(),
    ensures
        r@ == first_existing(crate::update_check::strings_view(paths@), exists@),
{
    let ghost pv = crate::update_check::strings_view(paths@);
    let mut i: usize = 0;
    while i < paths.len()
        invariant
            0 <= i <= paths@.len(),
            exists@.len() == paths@.len(),
            pv == crate::update_check::strings_view(paths@),
            forall|j: int| 0 <= j < i ==> !#[trigger] exists@[j],
        decreases paths@.len() - i,
    {
        if exists[i] {
            proof {
                crate::text::lemma_first_from_unique(pv.len() as int, |k: int| exists@[k], 0, Some(i as int));
            }
            return paths[i].clone();
        }
        i = i + 1;
    }
    proof {
        crate::text::lemma_first_from_unique(pv.len() as int, |k: int| exists@[k], 0, None);
    }
    paths[0].clone()
}

/// Where a bundled resource may be: under the app's resource directory, then
/// under the source tree's resources.
pub fn bundled_resource_candidates(resource_dir: &str, manifest_dir: &str, name: &str) -> (r: Vec<String>)
    ensures
        crate::update_check::strings_view(r@) == seq![
            path_join(path_join(resource_dir@, "resources"@), name@),
            path_join(path_join(manifest_dir@, "resources"@), name@),
        ],
{
    let a = join_path(resource_dir, "resources");
    let b = join_path(manifest_dir, "resources");
    let mut r: Vec<String> = Vec::new();
    r.push(join_path(a.as_str(), name));
    r.push(join_path(b.as_str(), name));
    assert(crate::update_check::strings_view(r@) =~= seq![
        path_join(path_join(resource_dir@, "resources"@), name@),
        path_join(path_join(manifest_dir@, "resources"@), name@),
    ]);
    r
}

/// Where the sidecar may be, in order of preference: the app bundle's
/// `MacOS/clirelay` next to the resource directory (or `clirelay` in it when
/// it has no parent), then the bundled and source-tree binaries.
pub open spec fn sidecar_candidate_paths(resource_dir: Seq<char>, resource_parent: Option<Seq<char>>, manifest_dir: Seq<char>) -> Seq<Seq<char>> {
    seq![
        match resource_parent {
            Some(contents) => path_join(path_join(contents, "MacOS"@), "clirelay"@),
            None => path_join(resource_dir, "clirelay"@),
        },
        path_join(path_join(resource_dir, "binaries"@), "clirelay-aarch64-apple-darwin"@),
        path_join(resource_dir, "clirelay-aarch64-apple-darwin"@),
        path_join(path_join(manifest_dir, "binaries"@), "clirelay-aarch64-apple-darwin"@),
    ]
}

pub fn sidecar_candidates(resource_dir: &str, resource_parent: Option<&str>, manifest_dir: &str) -> (r: Vec<String>)
    ensures
        crate::update_check::strings_view(r@) == sidecar_candidate_paths(
            resource_dir@,
            crate::component_update::opt_str_view(resource_parent),
            manifest_dir@,
        ),
{
    let first = match resource_parent {
        Some(contents) => {
            let m = join_path(contents, "MacOS");
            join_path(m.as_str(), "clirelay")
        },
        None => join_path(resource_dir, "clirelay"),
    };
    let bin = join_path(resource_dir, "binaries");
    let second = join_path(bin.as_str(), "clirelay-aarch64-apple-darwin");
    let third = join_path(resource_dir, "clirelay-aarch64-apple-darwin");
    let mbin = join_path(manifest_dir, "binaries");
    let fourth = join_path(mbin.as_str(), "clirelay-aarch64-apple-darwin");
    let mut r: Vec<String> = Vec::new();
    r.push(first);
    r.push(second);
    r.push(third);
    r.push(fourth);
    assert(crate::update_check::strings_view(r@) =~= sidecar_candidate_paths(
        resource_dir@,
        crate::component_update::opt_str_view(resource_parent),
        manifest_dir@,
    ));
    r
}

} // verus!
