use clirelay_desktop_lib::service::state::ServiceStatus;
use clirelay_desktop_lib::service::state::ServiceStatus::{
    Error, External, Running, Starting, Stopped, Stopping, Unhealthy,
};
use clirelay_desktop_lib::settings::DesktopLocale;
use clirelay_desktop_lib::tray::{
    desktop_exit_plan, tray_menu_items, DesktopExitPlan, TrayMenuItemId, LABEL_OPEN_PANEL, LABEL_QUIT,
    LABEL_RESTART_SERVICE, LABEL_SETTINGS, LABEL_START_SERVICE, LABEL_STATUS_RUNNING,
    LABEL_STOP_SERVICE,
};

fn labels_for(status: ServiceStatus) -> Vec<&'static str> {
    tray_menu_items(status, DesktopLocale::ZhCn)
        .into_iter()
        .map(|item| item.label)
        .collect()
}

fn service_action_labels_for(status: ServiceStatus) -> Vec<&'static str> {
    tray_menu_items(status, DesktopLocale::ZhCn)
        .into_iter()
        .filter(|item| {
            matches!(
                item.id,
                TrayMenuItemId::StartService
                    | TrayMenuItemId::StopService
                    | TrayMenuItemId::RestartService
            )
        })
        .map(|item| item.label)
        .collect()
}

#[test]
fn running_menu_matches_documented_order_without_removed_items() {
    assert_eq!(
        labels_for(Running),
        vec![
            LABEL_STATUS_RUNNING,
            LABEL_OPEN_PANEL,
            LABEL_STOP_SERVICE,
            LABEL_RESTART_SERVICE,
            LABEL_SETTINGS,
            LABEL_QUIT,
        ]
    );
}

#[test]
fn service_actions_are_visible_only_for_applicable_statuses() {
    let cases: [(ServiceStatus, &[&str]); 7] = [
        (Stopped, &[LABEL_START_SERVICE]),
        (Starting, &[]),
        (Running, &[LABEL_STOP_SERVICE, LABEL_RESTART_SERVICE]),
        (Unhealthy, &[LABEL_STOP_SERVICE, LABEL_RESTART_SERVICE]),
        (Error, &[LABEL_START_SERVICE, LABEL_RESTART_SERVICE]),
        (Stopping, &[]),
        (External, &[]),
    ];

    for (status, expected) in cases {
        assert_eq!(service_action_labels_for(status), expected);
    }
}

#[test]
fn menu_never_contains_removed_status_or_copy_items() {
    let labels = labels_for(Running);

    for removed_label in ["显示状态", "复制 API Base URL", "复制 OpenAI /v1 URL"] {
        assert!(
            !labels.contains(&removed_label),
            "菜单中不应再出现 {removed_label}"
        );
    }
}

#[test]
fn exit_plan_stops_only_owned_service_statuses() {
    for status in [Running, Unhealthy] {
        assert_eq!(
            desktop_exit_plan(status),
            DesktopExitPlan::StopOwnedServiceBeforeExit
        );
    }

    for status in [Stopped, Starting, Stopping, Error, External] {
        assert_eq!(desktop_exit_plan(status), DesktopExitPlan::ExitImmediately);
    }
}

#[test]
fn tray_labels_follow_english_locale() {
    let labels = tray_menu_items(Running, DesktopLocale::En)
        .into_iter()
        .map(|item| item.label)
        .collect::<Vec<_>>();

    assert!(labels.contains(&"Open management panel"));
    assert!(labels.contains(&"Settings"));
    assert!(labels.contains(&"Quit CliRelay Desktop"));
}

#[test]
fn menu_ids_round_trip_and_unknown_ids_are_ignored() {
    let ids = [
        TrayMenuItemId::StatusTitle,
        TrayMenuItemId::OpenPanel,
        TrayMenuItemId::Settings,
        TrayMenuItemId::StartService,
        TrayMenuItemId::StopService,
        TrayMenuItemId::RestartService,
        TrayMenuItemId::OpenDataDirectory,
        TrayMenuItemId::OpenLogDirectory,
        TrayMenuItemId::Quit,
    ];
    for id in ids {
        assert_eq!(TrayMenuItemId::from_str(id.as_str()), Some(id));
    }
    assert_eq!(TrayMenuItemId::Quit.as_str(), "tray_quit");
    assert_eq!(TrayMenuItemId::from_str("tray_copy_endpoint"), None);
    assert_eq!(TrayMenuItemId::from_str(""), None);
}

#[test]
fn only_the_status_title_is_disabled() {
    for status in [Stopped, Starting, Running, Stopping, Unhealthy, External, Error] {
        let items = tray_menu_items(status, DesktopLocale::En);
        assert_eq!(items[0].id, TrayMenuItemId::StatusTitle);
        assert!(!items[0].enabled);
        assert!(items[1..].iter().all(|item| item.enabled));
        assert_eq!(items[items.len() - 1].id, TrayMenuItemId::Quit);
    }
    assert_eq!(tray_menu_items(External, DesktopLocale::En)[0].label, "CliRelay ● External service");
}
