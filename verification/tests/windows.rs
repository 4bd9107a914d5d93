use clirelay_desktop_lib::paths::DesktopPaths;
use clirelay_desktop_lib::service::state::ServiceStatus;
use clirelay_desktop_lib::settings::DesktopLocale;
use clirelay_desktop_lib::web_url::parse_web_url;
use clirelay_desktop_lib::windows::main::{main_window_spec, window_state_path};
use clirelay_desktop_lib::windows::panel::{
    decide_panel_navigation, panel_language_storage_value, panel_language_sync_script, panel_url,
    panel_window_title, PanelNavigationDecision,
};
use clirelay_desktop_lib::windows::settings::settings_window_spec;
use clirelay_desktop_lib::windows::{
    restore_target, restore_target_after_dock_click, saved_bounds_fit_current_monitors,
    surface_for_label, DesktopWindowState, LastUserSurface, MonitorWorkArea, RestoreTarget,
    SavedWindowBounds,
};

#[test]
fn main_window_uses_documented_size_limits() {
    let spec = main_window_spec();

    assert_eq!(spec.label, "main");
    assert_eq!(spec.title, "CliRelay Desktop");
    assert_eq!(spec.size.width, 1200);
    assert_eq!(spec.size.height, 800);
    assert_eq!(spec.size.min_width, 900);
    assert_eq!(spec.size.min_height, 600);
}

#[test]
fn settings_window_is_single_instance_size() {
    let spec = settings_window_spec();

    assert_eq!(spec.label, "settings");
    assert_eq!(spec.title, "CliRelay Desktop Settings");
    assert_eq!(spec.size.width, 900);
    assert_eq!(spec.size.height, 600);
    assert_eq!(spec.size.min_width, 900);
    assert_eq!(spec.size.min_height, 600);
}

#[test]
fn panel_url_points_to_local_manage_route() {
    assert_eq!(panel_url(8317), "http://127.0.0.1:8317/manage");
}

#[test]
fn panel_window_uses_app_display_title() {
    assert_eq!(panel_window_title(), "CliRelay Desktop");
}

#[test]
fn panel_navigation_allows_only_current_local_panel_origin() {
    let cases = [
        ("http://127.0.0.1:8317/manage", PanelNavigationDecision::Allow),
        ("http://localhost:8317/models", PanelNavigationDecision::Allow),
        ("https://example.com/docs", PanelNavigationDecision::OpenExternal),
        ("file:///tmp/panel.html", PanelNavigationDecision::Block),
        ("http://example.com/manage", PanelNavigationDecision::Block),
        ("http://127.0.0.1:5174/manage", PanelNavigationDecision::Block),
        ("http://localhost:9999/manage", PanelNavigationDecision::Block),
    ];

    for (raw_url, expected) in cases {
        let url = parse_web_url(raw_url).expect("测试 URL 应合法");
        assert_eq!(decide_panel_navigation(8317, &url), expected);
    }
}

#[test]
fn https_on_a_loopback_host_is_never_opened_externally() {
    let url = parse_web_url("https://localhost:8317/manage").unwrap();
    assert_eq!(decide_panel_navigation(8317, &url), PanelNavigationDecision::Block);
    let url = parse_web_url("http://127.0.0.1/manage").unwrap();
    assert_eq!(url.port, Some(80));
    assert_eq!(decide_panel_navigation(80, &url), PanelNavigationDecision::Allow);
}

#[test]
fn dock_restore_prefers_panel_only_when_service_is_running_and_panel_was_last() {
    assert_eq!(
        restore_target(ServiceStatus::Running, LastUserSurface::Panel),
        RestoreTarget::Panel
    );
    assert_eq!(
        restore_target(ServiceStatus::Running, LastUserSurface::Status),
        RestoreTarget::Status
    );

    for status in [
        ServiceStatus::Starting,
        ServiceStatus::Stopping,
        ServiceStatus::Unhealthy,
        ServiceStatus::External,
        ServiceStatus::Error,
        ServiceStatus::Stopped,
    ] {
        assert_eq!(
            restore_target(status, LastUserSurface::Panel),
            RestoreTarget::Status
        );
    }
}

#[test]
fn dock_restore_opens_panel_after_silent_start_when_service_is_running() {
    assert_eq!(
        restore_target_after_dock_click(ServiceStatus::Running, LastUserSurface::Status, false),
        RestoreTarget::Panel
    );
}

#[test]
fn dock_restore_follows_last_surface_when_panel_opens_on_start() {
    assert_eq!(
        restore_target_after_dock_click(ServiceStatus::Running, LastUserSurface::Status, true),
        RestoreTarget::Status
    );
    assert_eq!(
        restore_target_after_dock_click(ServiceStatus::Stopped, LastUserSurface::Panel, false),
        RestoreTarget::Status
    );
}

#[test]
fn saved_bounds_are_valid_only_when_origin_is_on_current_monitor() {
    let work_areas = [
        MonitorWorkArea { x: 0, y: 0, width: 1440, height: 900 },
        MonitorWorkArea { x: -1440, y: 0, width: 1440, height: 900 },
    ];

    assert!(saved_bounds_fit_current_monitors(
        SavedWindowBounds { x: 100, y: 100, width: 1200, height: 800 },
        &work_areas,
    ));
    assert!(saved_bounds_fit_current_monitors(
        SavedWindowBounds { x: -1200, y: 100, width: 1200, height: 800 },
        &work_areas,
    ));
    assert!(!saved_bounds_fit_current_monitors(
        SavedWindowBounds { x: 2000, y: 100, width: 1200, height: 800 },
        &work_areas,
    ));
}

#[test]
fn work_area_edges_saturate_and_exclude_the_far_edge() {
    let area = MonitorWorkArea { x: i32::MAX - 10, y: 0, width: u32::MAX, height: 10 };
    assert!(area.contains_point(i32::MAX - 1, 5));
    assert!(!area.contains_point(i32::MAX, 5));
    assert!(!area.contains_point(i32::MAX - 1, 10));
    assert!(!saved_bounds_fit_current_monitors(
        SavedWindowBounds { x: 0, y: 0, width: 1, height: 1 },
        &[],
    ));
}

#[test]
fn window_labels_map_to_surfaces() {
    assert_eq!(surface_for_label("main"), Some(LastUserSurface::Status));
    assert_eq!(surface_for_label("status"), Some(LastUserSurface::Status));
    assert_eq!(surface_for_label("panel"), Some(LastUserSurface::Panel));
    assert_eq!(surface_for_label("settings"), None);
}

#[test]
fn window_state_remembers_the_last_surface() {
    let paths = DesktopPaths::for_test("/tmp/app-data".to_string(), "/tmp/logs".to_string());
    let mut state = DesktopWindowState::new(paths.clone());
    assert_eq!(state.last_user_surface(), LastUserSurface::Status);
    state.record_last_user_surface(LastUserSurface::Panel);
    assert_eq!(state.last_user_surface(), LastUserSurface::Panel);
    assert_eq!(state.paths(), &paths);
    assert_eq!(window_state_path(&paths), "/tmp/app-data/state/desktop-window-state.json");
}

#[test]
fn window_state_keeps_the_last_of_several_records_and_its_paths() {
    let paths = DesktopPaths::for_test("/tmp/a".to_string(), "/tmp/l".to_string());
    let mut state = DesktopWindowState::new(paths.clone());
    for surface in [LastUserSurface::Panel, LastUserSurface::Status, LastUserSurface::Panel] {
        state.record_last_user_surface(surface);
        assert_eq!(state.paths(), &paths);
    }
    assert_eq!(state.last_user_surface(), LastUserSurface::Panel);
}

#[test]
fn panel_language_storage_value_is_valid_json_string() {
    assert_eq!(
        panel_language_storage_value(DesktopLocale::En),
        r#"{"language":"en","state":{"language":"en"}}"#
    );
    assert_eq!(
        panel_language_storage_value(DesktopLocale::ZhCn),
        r#"{"language":"zh-CN","state":{"language":"zh-CN"}}"#
    );
}

#[test]
fn panel_language_sync_script_sets_code_proxy_language_key() {
    let script = panel_language_sync_script(DesktopLocale::En, true);

    assert!(script.contains("cli-proxy-language"));
    assert!(script.contains(r#""{\"language\":\"en\",\"state\":{\"language\":\"en\"}}""#));
    assert!(script.contains("window.location.reload()"));
}

#[test]
fn panel_language_sync_script_without_reload() {
    assert_eq!(
        panel_language_sync_script(DesktopLocale::ZhCn, false),
        r#"localStorage.setItem('cli-proxy-language', "{\"language\":\"zh-CN\",\"state\":{\"language\":\"zh-CN\"}}"); document.documentElement.lang = "zh-CN";"#
    );
}
