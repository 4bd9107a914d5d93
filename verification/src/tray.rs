//! The tray menu: which entries it shows for a service status, and what
//! quitting the desktop app has to do first.
use crate::service::state::ServiceStatus;
use crate::settings::DesktopLocale;
use crate::text::str_eq;
use vstd::prelude::*;

verus! {

pub const TRAY_ID: &'static str = "clirelay-desktop-tray";

pub const LABEL_STATUS_RUNNING: &'static str = "CliRelay ● 运行中";
pub const LABEL_STATUS_STOPPED: &'static str = "CliRelay ● 已停止";
pub const LABEL_STATUS_STARTING: &'static str = "CliRelay ● 启动中";
pub const LABEL_STATUS_STOPPING: &'static str = "CliRelay ● 停止中";
pub const LABEL_STATUS_UNHEALTHY: &'static str = "CliRelay ● 异常";
pub const LABEL_STATUS_EXTERNAL: &'static str = "CliRelay ● 外部服务";
pub const LABEL_STATUS_ERROR: &'static str = "CliRelay ● 错误";
pub const LABEL_OPEN_PANEL: &'static str = "打开管理面板";
pub const LABEL_SETTINGS: &'static str = "设置";
pub const LABEL_START_SERVICE: &'static str = "启动服务";
pub const LABEL_STOP_SERVICE: &'static str = "停止服务";
pub const LABEL_RESTART_SERVICE: &'static str = "重新启动";
pub const LABEL_OPEN_DATA_DIR: &'static str = "打开数据目录";
pub const LABEL_OPEN_LOG_DIR: &'static str = "打开日志目录";
pub const LABEL_QUIT: &'static str = "退出 CliRelay Desktop";
pub const LABEL_STATUS_RUNNING_EN: &'static str = "CliRelay ● Running";
pub const LABEL_STATUS_STOPPED_EN: &'static str = "CliRelay ● Stopped";
pub const LABEL_STATUS_STARTING_EN: &'static str = "CliRelay ● Starting";
pub const LABEL_STATUS_STOPPING_EN: &'static str = "CliRelay ● Stopping";
pub const LABEL_STATUS_UNHEALTHY_EN: &'static str = "CliRelay ● Unhealthy";
pub const LABEL_STATUS_EXTERNAL_EN: &'static str = "CliRelay ● External service";
pub const LABEL_STATUS_ERROR_EN: &'static str = "CliRelay ● Error";
pub const LABEL_OPEN_PANEL_EN: &'static str = "Open management panel";
pub const LABEL_SETTINGS_EN: &'static str = "Settings";
pub const LABEL_START_SERVICE_EN: &'static str = "Start service";
pub const LABEL_STOP_SERVICE_EN: &'static str = "Stop service";
pub const LABEL_RESTART_SERVICE_EN: &'static str = "Restart";
pub const LABEL_OPEN_DATA_DIR_EN: &'static str = "Open data directory";
pub const LABEL_OPEN_LOG_DIR_EN: &'static str = "Open log directory";
pub const LABEL_QUIT_EN: &'static str = "Quit CliRelay Desktop";

/// The entries the tray menu can hold.
#[derive(Clone, Copy, Debug, PartialEq, Eq, Structural)]
pub enum TrayMenuItemId {
    StatusTitle,
    OpenPanel,
    Settings,
    StartService,
    StopService,
    RestartService,
    OpenDataDirectory,
    OpenLogDirectory,
    Quit,
}

/// The menu id under which an entry is registered.
pub open spec fn item_id_text(id: TrayMenuItemId) -> Seq<char> {
    match id {
        TrayMenuItemId::StatusTitle => "tray_status_title"@,
        TrayMenuItemId::OpenPanel => "tray_open_panel"@,
        TrayMenuItemId::Settings => "tray_settings"@,
        TrayMenuItemId::StartService => "tray_start_service"@,
        TrayMenuItemId::StopService => "tray_stop_service"@,
        TrayMenuItemId::RestartService => "tray_restart_service"@,
        TrayMenuItemId::OpenDataDirectory => "tray_open_data_directory"@,
        TrayMenuItemId::OpenLogDirectory => "tray_open_log_directory"@,
        TrayMenuItemId::Quit => "tray_quit"@,
    }
}

/// The entry whose menu id is `text`, if any.
pub open spec fn item_id_from_text(text: Seq<char>) -> Option<TrayMenuItemId> {
    if text == "tray_status_title"@ {
        Some(TrayMenuItemId::StatusTitle)
    } else if text == "tray_open_panel"@ {
        Some(TrayMenuItemId::OpenPanel)
    } else if text == "tray_settings"@ {
        Some(TrayMenuItemId::Settings)
    } else if text == "tray_start_service"@ {
        Some(TrayMenuItemId::StartService)
    } else if text == "tray_stop_service"@ {
        Some(TrayMenuItemId::StopService)
    } else if text == "tray_restart_service"@ {
        Some(TrayMenuItemId::RestartService)
    } else if text == "tray_open_data_directory"@ {
        Some(TrayMenuItemId::OpenDataDirectory)
    } else if text == "tray_open_log_directory"@ {
        Some(TrayMenuItemId::OpenLogDirectory)
    } else if text == "tray_quit"@ {
        Some(TrayMenuItemId::Quit)
    } else {
        None
    }
}

impl TrayMenuItemId {
    /// The menu id of this entry.
    pub fn as_str(self) -> (r: &'static str)
        ensures
            r@ == item_id_text(self),
    {
        match self {
            TrayMenuItemId::StatusTitle => "tray_status_title",
            TrayMenuItemId::OpenPanel => "tray_open_panel",
            TrayMenuItemId::Settings => "tray_settings",
            TrayMenuItemId::StartService => "tray_start_service",
            TrayMenuItemId::StopService => "tray_stop_service",
            TrayMenuItemId::RestartService => "tray_restart_service",
            TrayMenuItemId::OpenDataDirectory => "tray_open_data_directory",
            TrayMenuItemId::OpenLogDirectory => "tray_open_log_directory",
            TrayMenuItemId::Quit => "tray_quit",
        }
    }

    /// The entry registered under the menu id `value`; `None` for any other text.
    pub fn from_str(value: &str) -> (r: Option<Self>)
        ensures
            r == item_id_from_text(value@),
    {
        if str_eq(value, "tray_status_title") {
            Some(TrayMenuItemId::StatusTitle)
        } else if str_eq(value, "tray_open_panel") {
            Some(TrayMenuItemId::OpenPanel)
        } else if str_eq(value, "tray_settings") {
            Some(TrayMenuItemId::Settings)
        } else if str_eq(value, "tray_start_service") {
            Some(TrayMenuItemId::StartService)
        } else if str_eq(value, "tray_stop_service") {
            Some(TrayMenuItemId::StopService)
        } else if str_eq(value, "tray_restart_service") {
            Some(TrayMenuItemId::RestartService)
        } else if str_eq(value, "tray_open_data_directory") {
            Some(TrayMenuItemId::OpenDataDirectory)
        } else if str_eq(value, "tray_open_log_directory") {
            Some(TrayMenuItemId::OpenLogDirectory)
        } else if str_eq(value, "tray_quit") {
            Some(TrayMenuItemId::Quit)
        } else {
            None
        }
    }
}

/// Reading back the menu id of an entry gives that entry: no two entries share
/// a menu id.
pub proof fn lemma_item_id_round_trip(id: TrayMenuItemId)
    ensures
        item_id_from_text(item_id_text(id)) == Some(id),
{
    reveal_strlit("tray_status_title");
    reveal_strlit("tray_open_panel");
    reveal_strlit("tray_settings");
    reveal_strlit("tray_start_service");
    reveal_strlit("tray_stop_service");
    reveal_strlit("tray_restart_service");
    reveal_strlit("tray_open_data_directory");
    reveal_strlit("tray_open_log_directory");
    reveal_strlit("tray_quit");
    let names = seq![
        "tray_status_title"@,
        "tray_open_panel"@,
        "tray_settings"@,
        "tray_start_service"@,
        "tray_stop_service"@,
        "tray_restart_service"@,
        "tray_open_data_directory"@,
        "tray_open_log_directory"@,
        "tray_quit"@,
    ];
    assert(names[0].len() == 17 && names[1].len() == 15 && names[2].len() == 13);
    assert(names[3].len() == 18 && names[4].len() == 17 && names[5].len() == 20);
    assert(names[6].len() == 24 && names[7].len() == 23 && names[8].len() == 9);
    assert(names[0][7] != names[4][7]);
    assert(names[0] != names[4]);
}

/// One entry of the tray menu.
#[derive(Clone, Copy, Debug)]
pub struct TrayMenuItemSpec {
    pub id: TrayMenuItemId,
    pub label: &'static str,
    pub enabled: bool,
}

/// A tray entry as plain values.
pub struct TrayItemView {
    pub id: TrayMenuItemId,
    pub label: Seq<char>,
    pub enabled: bool,
}

impl View for TrayMenuItemSpec {
    type V = TrayItemView;

    open spec fn view(&self) -> TrayItemView {
        TrayItemView { id: self.id, label: self.label@, enabled: self.enabled }
    }
}

pub open spec fn item_views(items: Seq<TrayMenuItemSpec>) -> Seq<TrayItemView> {
    Seq::new(items.len(), |i: int| items[i]@)
}

pub open spec fn entry(id: TrayMenuItemId, label: Seq<char>) -> TrayItemView {
    TrayItemView { id, label, enabled: true }
}

impl TrayMenuItemSpec {
    fn enabled(id: TrayMenuItemId, label: &'static str) -> (r: Self)
        ensures
            r@ == entry(id, label@),
    {
        TrayMenuItemSpec { id, label, enabled: true }
    }

    fn disabled(id: TrayMenuItemId, label: &'static str) -> (r: Self)
        ensures
            r@ == (TrayItemView { id, label: label@, enabled: false }),
    {
        TrayMenuItemSpec { id, label, enabled: false }
    }
}

/// What quitting the desktop app does with the service.
#[derive(Clone, Copy, Debug, PartialEq, Eq, Structural)]
pub enum DesktopExitPlan {
    StopOwnedServiceBeforeExit,
    ExitImmediately,
}

/// The service is the app's own and up: quitting stops it first.
pub open spec fn stops_before_exit(status: ServiceStatus) -> bool {
    status == ServiceStatus::Running || status == ServiceStatus::Unhealthy
}

/// Quitting stops the service first exactly when it runs (healthy or not) as
/// the app's own process.
pub fn desktop_exit_plan(status: ServiceStatus) -> (r: DesktopExitPlan)
    ensures
        r == (if stops_before_exit(status) {
            DesktopExitPlan::StopOwnedServiceBeforeExit
        } else {
            DesktopExitPlan::ExitImmediately
        }),
{
    match status {
        ServiceStatus::Running | ServiceStatus::Unhealthy => {
            DesktopExitPlan::StopOwnedServiceBeforeExit
        },
        ServiceStatus::Stopped
        | ServiceStatus::Starting
        | ServiceStatus::Stopping
        | ServiceStatus::External
        | ServiceStatus::Error => DesktopExitPlan::ExitImmediately,
    }
}

/// The title line of the menu for a status.
pub open spec fn status_title_text(status: ServiceStatus, locale: DesktopLocale) -> Seq<char> {
    match locale {
        DesktopLocale::ZhCn => match status {
            ServiceStatus::Stopped => LABEL_STATUS_STOPPED@,
            ServiceStatus::Starting => LABEL_STATUS_STARTING@,
            ServiceStatus::Running => LABEL_STATUS_RUNNING@,
            ServiceStatus::Stopping => LABEL_STATUS_STOPPING@,
            ServiceStatus::Unhealthy => LABEL_STATUS_UNHEALTHY@,
            ServiceStatus::External => LABEL_STATUS_EXTERNAL@,
            ServiceStatus::Error => LABEL_STATUS_ERROR@,
        },
        DesktopLocale::En => match status {
            ServiceStatus::Stopped => LABEL_STATUS_STOPPED_EN@,
            ServiceStatus::Starting => LABEL_STATUS_STARTING_EN@,
            ServiceStatus::Running => LABEL_STATUS_RUNNING_EN@,
            ServiceStatus::Stopping => LABEL_STATUS_STOPPING_EN@,
            ServiceStatus::Unhealthy => LABEL_STATUS_UNHEALTHY_EN@,
            ServiceStatus::External => LABEL_STATUS_EXTERNAL_EN@,
            ServiceStatus::Error => LABEL_STATUS_ERROR_EN@,
        },
    }
}

/// The label of an action entry in a locale.
pub open spec fn action_label(id: TrayMenuItemId, locale: DesktopLocale) -> Seq<char> {
    match locale {
        DesktopLocale::ZhCn => match id {
            TrayMenuItemId::OpenPanel => LABEL_OPEN_PANEL@,
            TrayMenuItemId::Settings => LABEL_SETTINGS@,
            TrayMenuItemId::StartService => LABEL_START_SERVICE@,
            TrayMenuItemId::StopService => LABEL_STOP_SERVICE@,
            TrayMenuItemId::RestartService => LABEL_RESTART_SERVICE@,
            TrayMenuItemId::OpenDataDirectory => LABEL_OPEN_DATA_DIR@,
            TrayMenuItemId::OpenLogDirectory => LABEL_OPEN_LOG_DIR@,
            _ => LABEL_QUIT@,
        },
        DesktopLocale::En => match id {
            TrayMenuItemId::OpenPanel => LABEL_OPEN_PANEL_EN@,
            TrayMenuItemId::Settings => LABEL_SETTINGS_EN@,
            TrayMenuItemId::StartService => LABEL_START_SERVICE_EN@,
            TrayMenuItemId::StopService => LABEL_STOP_SERVICE_EN@,
            TrayMenuItemId::RestartService => LABEL_RESTART_SERVICE_EN@,
            TrayMenuItemId::OpenDataDirectory => LABEL_OPEN_DATA_DIR_EN@,
            TrayMenuItemId::OpenLogDirectory => LABEL_OPEN_LOG_DIR_EN@,
            _ => LABEL_QUIT_EN@,
        },
    }
}

/// The service actions offered for a status, in menu order.
pub open spec fn service_action_ids(status: ServiceStatus) -> Seq<TrayMenuItemId> {
    match status {
        ServiceStatus::Stopped => seq![TrayMenuItemId::StartService],
        ServiceStatus::Running | ServiceStatus::Unhealthy => seq![
            TrayMenuItemId::StopService,
            TrayMenuItemId::RestartService,
        ],
        ServiceStatus::Error => seq![TrayMenuItemId::StartService, TrayMenuItemId::RestartService],
        _ => Seq::empty(),
    }
}

/// Enabled entries for `ids`, labelled in `locale`.
pub open spec fn action_entries(ids: Seq<TrayMenuItemId>, locale: DesktopLocale) -> Seq<TrayItemView> {
    Seq::new(ids.len(), |i: int| entry(ids[i], action_label(ids[i], locale)))
}

/// The whole menu: the disabled status title, "open panel", the service
/// actions for the status, "settings" and "quit".
pub open spec fn tray_menu(status: ServiceStatus, locale: DesktopLocale) -> Seq<TrayItemView> {
    seq![
        TrayItemView {
            id: TrayMenuItemId::StatusTitle,
            label: status_title_text(status, locale),
            enabled: false,
        },
        entry(TrayMenuItemId::OpenPanel, action_label(TrayMenuItemId::OpenPanel, locale)),
    ] + action_entries(service_action_ids(status), locale) + action_entries(
        seq![TrayMenuItemId::Settings, TrayMenuItemId::Quit],
        locale,
    )
}

fn status_title(status: &ServiceStatus, locale: DesktopLocale) -> (r: &'static str)
    ensures
        r@ == status_title_text(*status, locale),
{
    match locale {
        DesktopLocale::ZhCn => match status {
            ServiceStatus::Stopped => LABEL_STATUS_STOPPED,
            ServiceStatus::Starting => LABEL_STATUS_STARTING,
            ServiceStatus::Running => LABEL_STATUS_RUNNING,
            ServiceStatus::Stopping => LABEL_STATUS_STOPPING,
            ServiceStatus::Unhealthy => LABEL_STATUS_UNHEALTHY,
            ServiceStatus::External => LABEL_STATUS_EXTERNAL,
            ServiceStatus::Error => LABEL_STATUS_ERROR,
        },
        DesktopLocale::En => match status {
            ServiceStatus::Stopped => LABEL_STATUS_STOPPED_EN,
            ServiceStatus::Starting => LABEL_STATUS_STARTING_EN,
            ServiceStatus::Running => LABEL_STATUS_RUNNING_EN,
            ServiceStatus::Stopping => LABEL_STATUS_STOPPING_EN,
            ServiceStatus::Unhealthy => LABEL_STATUS_UNHEALTHY_EN,
            ServiceStatus::External => LABEL_STATUS_EXTERNAL_EN,
            ServiceStatus::Error => LABEL_STATUS_ERROR_EN,
        },
    }
}

fn open_panel_label(locale: DesktopLocale) -> (r: &'static str)
    ensures
        r@ == action_label(TrayMenuItemId::OpenPanel, locale),
{
    match locale {
        DesktopLocale::ZhCn => LABEL_OPEN_PANEL,
        DesktopLocale::En => LABEL_OPEN_PANEL_EN,
    }
}

fn settings_label(locale: DesktopLocale) -> (r: &'static str)
    ensures
        r@ == action_label(TrayMenuItemId::Settings, locale),
{
    match locale {
        DesktopLocale::ZhCn => LABEL_SETTINGS,
        DesktopLocale::En => LABEL_SETTINGS_EN,
    }
}

fn start_service_label(locale: DesktopLocale) -> (r: &'static str)
    ensures
        r@ == action_label(TrayMenuItemId::StartService, locale),
{
    match locale {
        DesktopLocale::ZhCn => LABEL_START_SERVICE,
        DesktopLocale::En => LABEL_START_SERVICE_EN,
    }
}

fn stop_service_label(locale: DesktopLocale) -> (r: &'static str)
    ensures
        r@ == action_label(TrayMenuItemId::StopService, locale),
{
    match locale {
        DesktopLocale::ZhCn => LABEL_STOP_SERVICE,
        DesktopLocale::En => LABEL_STOP_SERVICE_EN,
    }
}

fn restart_service_label(locale: DesktopLocale) -> (r: &'static str)
    ensures
        r@ == action_label(TrayMenuItemId::RestartService, locale),
{
    match locale {
        DesktopLocale::ZhCn => LABEL_RESTART_SERVICE,
        DesktopLocale::En => LABEL_RESTART_SERVICE_EN,
    }
}

fn quit_label(locale: DesktopLocale) -> (r: &'static str)
    ensures
        r@ == action_label(TrayMenuItemId::Quit, locale),
{
    match locale {
        DesktopLocale::ZhCn => LABEL_QUIT,
        DesktopLocale::En => LABEL_QUIT_EN,
    }
}

fn service_action_items(status: &ServiceStatus, locale: DesktopLocale) -> (r: Vec<TrayMenuItemSpec>)
    ensures
        item_views(r@) == action_entries(service_action_ids(*status), locale),
{
    let mut r: Vec<TrayMenuItemSpec> = Vec::new();
    match status {
        ServiceStatus::Stopped => {
            r.push(TrayMenuItemSpec::enabled(TrayMenuItemId::StartService, start_service_label(locale)));
        },
        ServiceStatus::Running | ServiceStatus::Unhealthy => {
            r.push(TrayMenuItemSpec::enabled(TrayMenuItemId::StopService, stop_service_label(locale)));
            r.push(
                TrayMenuItemSpec::enabled(TrayMenuItemId::RestartService, restart_service_label(locale)),
            );
        },
        ServiceStatus::Error => {
            r.push(TrayMenuItemSpec::enabled(TrayMenuItemId::StartService, start_service_label(locale)));
            r.push(
                TrayMenuItemSpec::enabled(TrayMenuItemId::RestartService, restart_service_label(locale)),
            );
        },
        ServiceStatus::Starting | ServiceStatus::Stopping | ServiceStatus::External => {},
    }
    assert(item_views(r@) =~= action_entries(service_action_ids(*status), locale));
    r
}

/// The tray menu for a status, in the order it is shown.
pub fn tray_menu_items(status: ServiceStatus, locale: DesktopLocale) -> (r: Vec<TrayMenuItemSpec>)
    ensures
        item_views(r@) == tray_menu(status, locale),
{
    let mut items: Vec<TrayMenuItemSpec> = Vec::new();
    items.push(TrayMenuItemSpec::disabled(TrayMenuItemId::StatusTitle, status_title(&status, locale)));
    items.push(TrayMenuItemSpec::enabled(TrayMenuItemId::OpenPanel, open_panel_label(locale)));
    let actions = service_action_items(&status, locale);
    let ghost head = items@;
    let mut i: usize = 0;
    while i < actions.len()
        invariant
            0 <= i <= actions@.len(),
            head.len() == 2,
            items@ == head + actions@.subrange(0, i as int),
        decreases actions@.len() - i,
    {
        items.push(actions[i]);
        i = i + 1;
        assert(items@ =~= head + actions@.subrange(0, i as int));
    }
    assert(actions@.subrange(0, actions@.len() as int) =~= actions@);
    let ghost middle = items@;
    items.push(TrayMenuItemSpec::enabled(TrayMenuItemId::Settings, settings_label(locale)));
    items.push(TrayMenuItemSpec::enabled(TrayMenuItemId::Quit, quit_label(locale)));
    proof {
        let want = tray_menu(status, locale);
        let acts = action_entries(service_action_ids(status), locale);
        assert(item_views(actions@) == acts);
        assert(items@.len() == 4 + actions@.len());
        assert(want.len() == 4 + acts.len());
        assert forall|j: int| 0 <= j < items@.len() implies item_views(items@)[j] == want[j] by {
            if 2 <= j < 2 + actions@.len() {
                assert(items@[j] == actions@[j - 2]);
                assert(item_views(actions@)[j - 2] == actions@[j - 2]@);
            }
        }
        assert(item_views(items@) =~= want);
    }
    items
}

/// The stop entry is offered exactly when quitting would stop the service:
/// both mean the service runs as the app's own process.
pub proof fn lemma_stop_entry_matches_exit_plan(status: ServiceStatus)
    ensures
        service_action_ids(status).contains(TrayMenuItemId::StopService) <==> stops_before_exit(status),
{
    let ids = service_action_ids(status);
    if ids.contains(TrayMenuItemId::StopService) {
        let k = choose|k: int| 0 <= k < ids.len() && ids[k] == TrayMenuItemId::StopService;
        assert(ids[k] == TrayMenuItemId::StopService);
    }
    if stops_before_exit(status) {
        assert(ids[0] == TrayMenuItemId::StopService);
    }
}

/// Start is offered only for a stopped or failed service, restart only for one
/// that runs or failed, and a service in transition or run by someone else
/// offers no action at all.
pub proof fn lemma_service_actions_follow_status(status: ServiceStatus)
    ensures
        service_action_ids(status).contains(TrayMenuItemId::StartService) <==> (status
            == ServiceStatus::Stopped || status == ServiceStatus::Error),
        service_action_ids(status).contains(TrayMenuItemId::RestartService) <==> (status
            == ServiceStatus::Running || status == ServiceStatus::Unhealthy || status
            == ServiceStatus::Error),
        (status == ServiceStatus::Starting || status == ServiceStatus::Stopping || status
            == ServiceStatus::External) ==> service_action_ids(status).len() == 0,
{
    let ids = service_action_ids(status);
    assert forall|id: TrayMenuItemId| ids.contains(id) implies exists|k: int|
        0 <= k < ids.len() && ids[k] == id by {}
    match status {
        ServiceStatus::Stopped => {
            assert(ids[0] == TrayMenuItemId::StartService);
        },
        ServiceStatus::Running | ServiceStatus::Unhealthy => {
            assert(ids[1] == TrayMenuItemId::RestartService);
        },
        ServiceStatus::Error => {
            assert(ids[0] == TrayMenuItemId::StartService);
            assert(ids[1] == TrayMenuItemId::RestartService);
        },
        _ => {},
    }
}

/// Every menu begins with the disabled status title and "open panel", and ends
/// with "settings" then "quit".
pub proof fn lemma_menu_frame(status: ServiceStatus, locale: DesktopLocale)
    ensures
        tray_menu(status, locale).len() >= 4,
        tray_menu(status, locale)[0].id == TrayMenuItemId::StatusTitle,
        !tray_menu(status, locale)[0].enabled,
        tray_menu(status, locale)[1].id == TrayMenuItemId::OpenPanel,
        tray_menu(status, locale)[tray_menu(status, locale).len() - 2].id == TrayMenuItemId::Settings,
        tray_menu(status, locale).last().id == TrayMenuItemId::Quit,
        forall|j: int| 1 <= j < tray_menu(status, locale).len() ==> #[trigger] tray_menu(status, locale)[j].enabled,
{
    let m = tray_menu(status, locale);
    let acts = action_entries(service_action_ids(status), locale);
    assert(m.len() == 4 + acts.len());
    assert forall|j: int| 1 <= j < m.len() implies #[trigger] m[j].enabled by {
        if 2 <= j < 2 + acts.len() {
            assert(m[j] == acts[j - 2]);
        }
    }
}

} // verus!
