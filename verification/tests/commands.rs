use clirelay_desktop_lib::commands::{
    applied_result, apply_desktop_settings_patch, bundled_resource_candidates, check_patch_fields,
    clirelay_apply_check, covers_component, endpoint_url, first_existing_path, installed_scope,
    no_prepared_update_result, panel_target, prepared_update, sidecar_candidates, v1_endpoint_url,
    validate_management_secret_key, CommandError, ComponentApplyStatus,
    ComponentPreparationRuntime, ComponentPreparationStatus, DesktopSettingsPatch,
    SAFE_COMMAND_NAMES,
};
use clirelay_desktop_lib::component_update::PreparedComponentUpdate;
use clirelay_desktop_lib::service::manager::ServiceSnapshot;
use clirelay_desktop_lib::service::ownership::ProcessOwnership;
use clirelay_desktop_lib::service::state::ServiceStatus;
use clirelay_desktop_lib::settings::{DesktopLocale, DesktopSettings, SettingsError};
use clirelay_desktop_lib::time::UtcTime;
use clirelay_desktop_lib::update_check::{UpstreamComponent, UpstreamInstallScope};

#[test]
fn command_names_match_safe_whitelist() {
    assert_eq!(
        SAFE_COMMAND_NAMES,
        [
            "get_service_snapshot",
            "start_service",
            "stop_service",
            "restart_service",
            "open_panel",
            "open_settings",
            "open_log_directory",
            "open_data_directory",
            "copy_endpoint",
            "copy_v1_endpoint",
            "get_desktop_settings",
            "update_desktop_settings",
            "get_runtime_config_status",
            "import_runtime_config",
            "initialize_default_runtime_config",
            "get_management_secret_status",
            "set_management_secret_key",
            "quit_desktop",
            "check_for_updates",
            "get_component_update_preparation",
            "prepare_upstream_component_updates",
            "apply_prepared_component_updates",
        ]
    );
    assert!(!SAFE_COMMAND_NAMES.contains(&"greet"));
}

#[test]
fn rejects_port_patch_while_service_is_running() {
    let settings = DesktopSettings::default();
    let patch = DesktopSettingsPatch { port: Some(8318), ..DesktopSettingsPatch::default() };

    let error = apply_desktop_settings_patch(&settings, ServiceStatus::Running, patch).unwrap_err();

    assert!(matches!(error, CommandError::PortChangeRequiresStopped));
}

#[test]
fn accepts_port_patch_when_service_is_stopped() {
    let settings = DesktopSettings::default();
    let patch = DesktopSettingsPatch { port: Some(8318), ..DesktopSettingsPatch::default() };

    let updated = apply_desktop_settings_patch(&settings, ServiceStatus::Stopped, patch).unwrap();

    assert_eq!(updated.port, 8318);
}

#[test]
fn rejects_forbidden_settings_fields() {
    let error = check_patch_fields(&vec!["first_run_completed".to_string()])
        .expect_err("非白名单字段应被拒绝");

    assert!(matches!(
        error,
        CommandError::ForbiddenSettingsField(field) if field == "first_run_completed"
    ));
}

#[test]
fn accepts_locale_settings_patch() {
    let settings = DesktopSettings::default();
    let patch = DesktopSettingsPatch { locale: Some(DesktopLocale::En), ..DesktopSettingsPatch::default() };

    let updated = apply_desktop_settings_patch(&settings, ServiceStatus::Stopped, patch).unwrap();

    assert_eq!(updated.locale, DesktopLocale::En);
}

#[test]
fn patch_fields_are_checked_in_order_and_known_fields_pass() {
    assert!(check_patch_fields(&vec!["locale".to_string(), "port".to_string()]).is_ok());
    assert!(check_patch_fields(&Vec::new()).is_ok());
    let error = check_patch_fields(&vec![
        "auto_start_app".to_string(),
        "paths".to_string(),
        "schema_version".to_string(),
    ])
    .unwrap_err();
    assert_eq!(error, CommandError::ForbiddenSettingsField("paths".to_string()));
    assert_eq!(error.to_string(), "不允许修改设置字段: paths");
}

#[test]
fn patch_changes_only_named_settings_and_checks_the_port() {
    let settings = DesktopSettings::default();
    let patch = DesktopSettingsPatch {
        auto_start_app: Some(true),
        open_panel_on_start: Some(false),
        ..DesktopSettingsPatch::default()
    };
    let updated = apply_desktop_settings_patch(&settings, ServiceStatus::Running, patch).unwrap();
    assert!(updated.auto_start_app);
    assert!(!updated.open_panel_on_start);
    assert_eq!(updated.port, settings.port);
    assert_eq!(updated.locale, settings.locale);

    let low = DesktopSettingsPatch { port: Some(80), ..DesktopSettingsPatch::default() };
    assert_eq!(
        apply_desktop_settings_patch(&settings, ServiceStatus::Stopped, low).unwrap_err(),
        CommandError::InvalidPort(80)
    );
}

#[test]
fn rejects_empty_management_secret_key() {
    let error = validate_management_secret_key("  ").unwrap_err();

    assert!(matches!(
        error,
        CommandError::InvalidSettingsPatch(message) if message.contains("管理密钥不能为空")
    ));
}

#[test]
fn trims_only_for_management_secret_validation() {
    assert_eq!(
        validate_management_secret_key("  abc  ").unwrap(),
        "  abc  "
    );
}

fn service_snapshot(port: u16) -> ServiceSnapshot {
    let endpoint = format!("http://127.0.0.1:{port}");

    ServiceSnapshot {
        status: ServiceStatus::Stopped,
        pid: None,
        port,
        endpoint: endpoint.clone(),
        panel_url: format!("{endpoint}/manage"),
        started_at: None,
        last_exit_code: None,
        last_error: None,
        ownership: ProcessOwnership::Unknown,
        clirelay_version: "test".to_string(),
        code_proxy_version: "test".to_string(),
        sidecar_sha256: "test".to_string(),
    }
}

#[test]
fn endpoint_urls_are_derived_from_snapshot_port() {
    let snapshot = service_snapshot(8317);

    assert_eq!(endpoint_url(&snapshot), "http://127.0.0.1:8317");
    assert_eq!(v1_endpoint_url(&snapshot), "http://127.0.0.1:8317/v1");
}

#[test]
fn the_panel_opens_only_for_a_running_service() {
    let mut snapshot = service_snapshot(8318);
    assert_eq!(
        panel_target(&snapshot).unwrap_err(),
        CommandError::PanelNotReady(ServiceStatus::Stopped)
    );
    snapshot.status = ServiceStatus::Running;
    assert_eq!(
        panel_target(&snapshot).unwrap(),
        (8318, "http://127.0.0.1:8318/manage".to_string())
    );
}

#[test]
fn command_error_messages() {
    assert_eq!(
        CommandError::PanelNotReady(ServiceStatus::Starting).to_string(),
        "Panel 尚未 ready，当前服务状态: Starting"
    );
    assert_eq!(CommandError::InvalidPort(80).to_string(), "端口必须在 1024-65535 范围内: 80");
    assert_eq!(CommandError::PortChangeRequiresStopped.to_string(), "修改端口前必须先停止服务");
    assert_eq!(CommandError::Open("boom".to_string()).to_string(), "boom");
    assert_eq!(
        CommandError::from_settings(SettingsError::MissingTopLevelPort),
        CommandError::Settings("config.example.yaml 中未找到顶层 port".to_string())
    );
}

fn time(secs: i64) -> UtcTime {
    UtcTime { secs, nanos: 0 }
}

fn prepared(scope: UpstreamInstallScope) -> PreparedComponentUpdate {
    PreparedComponentUpdate { install_scope: scope, clirelay: None, code_proxy: None, prepared_at: time(5) }
}

#[test]
fn preparation_refuses_an_empty_scope_and_keeps_a_running_one() {
    let mut runtime = ComponentPreparationRuntime::new();
    assert!(matches!(
        runtime.begin(UpstreamInstallScope::Neither, time(1)),
        Err(CommandError::ComponentUpdate(m)) if m == "没有可准备的上游组件更新"
    ));
    assert_eq!(runtime.snapshot().status, ComponentPreparationStatus::Idle);

    let (snapshot, start) = runtime.begin(UpstreamInstallScope::Both, time(1)).unwrap();
    assert!(start);
    assert_eq!(snapshot.status, ComponentPreparationStatus::Preparing);
    assert_eq!(snapshot.install_scope, UpstreamInstallScope::Both);
    assert_eq!(snapshot.message, "正在后台准备组件更新");
    assert_eq!(snapshot.started_at, Some(time(1)));

    let (again, start_again) = runtime.begin(UpstreamInstallScope::CliRelay, time(2)).unwrap();
    assert!(!start_again);
    assert_eq!(again.install_scope, UpstreamInstallScope::Both);
    assert_eq!(again.started_at, Some(time(1)));
}

#[test]
fn preparation_results_are_recorded_and_handed_out_once() {
    let mut runtime = ComponentPreparationRuntime::new();
    runtime.begin(UpstreamInstallScope::CliRelay, time(1)).unwrap();
    runtime.finish(Ok(prepared(UpstreamInstallScope::CliRelay)), UpstreamInstallScope::CliRelay, time(1), time(9));
    let shown = runtime.snapshot();
    assert_eq!(shown.status, ComponentPreparationStatus::Ready);
    assert_eq!(shown.message, "组件更新已准备好，点击重启完成替换");
    assert_eq!(shown.finished_at, Some(time(9)));
    let taken = runtime.take_prepared().expect("prepared update");
    assert_eq!(taken.install_scope, UpstreamInstallScope::CliRelay);
    assert!(runtime.take_prepared().is_none());
    runtime.restore_prepared(taken);
    assert!(runtime.take_prepared().is_some());
    runtime.reset();
    assert_eq!(runtime.snapshot().status, ComponentPreparationStatus::Idle);
    assert_eq!(runtime.snapshot().install_scope, UpstreamInstallScope::Neither);

    runtime.begin(UpstreamInstallScope::CodeProxy, time(3)).unwrap();
    runtime.finish(Err(CommandError::Update("offline".to_string())), UpstreamInstallScope::CodeProxy, time(3), time(4));
    let failed = runtime.snapshot();
    assert_eq!(failed.status, ComponentPreparationStatus::Failed);
    assert_eq!(failed.message, "组件更新准备失败");
    assert_eq!(failed.error, Some("offline".to_string()));
    assert!(runtime.take_prepared().is_none());
}

#[test]
fn apply_results_and_scopes() {
    let none = no_prepared_update_result();
    assert_eq!(none.status, ComponentApplyStatus::NoPreparedUpdate);
    assert_eq!(none.message, "没有已准备好的组件更新");
    assert_eq!(none.applied_scope, UpstreamInstallScope::Neither);
    let applied = applied_result(UpstreamInstallScope::Both);
    assert_eq!(applied.status, ComponentApplyStatus::Applied);
    assert_eq!(applied.message, "组件更新已应用，正在重启 Desktop");

    assert_eq!(installed_scope(true, true), UpstreamInstallScope::Both);
    assert_eq!(installed_scope(true, false), UpstreamInstallScope::CliRelay);
    assert_eq!(installed_scope(false, true), UpstreamInstallScope::CodeProxy);
    assert_eq!(installed_scope(false, false), UpstreamInstallScope::Neither);
    for scope in [
        UpstreamInstallScope::Neither,
        UpstreamInstallScope::CliRelay,
        UpstreamInstallScope::CodeProxy,
        UpstreamInstallScope::Both,
    ] {
        assert_eq!(
            installed_scope(
                covers_component(scope, UpstreamComponent::CliRelay),
                covers_component(scope, UpstreamComponent::CodeProxy)
            ),
            scope
        );
    }
    assert!(matches!(
        prepared_update(UpstreamInstallScope::Both, None, None, time(1)),
        Err(CommandError::ComponentUpdate(m)) if m == "没有可准备的上游组件更新"
    ));
}

#[test]
fn clirelay_apply_needs_an_owned_or_idle_service() {
    assert_eq!(clirelay_apply_check(ServiceStatus::Running, ProcessOwnership::Owned), Ok(true));
    assert_eq!(clirelay_apply_check(ServiceStatus::Stopped, ProcessOwnership::Unknown), Ok(false));
    assert_eq!(clirelay_apply_check(ServiceStatus::Error, ProcessOwnership::Unknown), Ok(false));
    assert_eq!(
        clirelay_apply_check(ServiceStatus::Unhealthy, ProcessOwnership::External),
        Err(CommandError::ComponentUpdate("只允许更新 Desktop 自管 CliRelay 服务".to_string()))
    );
    assert_eq!(
        clirelay_apply_check(ServiceStatus::External, ProcessOwnership::External),
        Err(CommandError::ComponentUpdate(
            "当前服务状态不允许安装 CliRelay 热更: External".to_string()
        ))
    );
}

#[test]
fn sidecar_resolution_prefers_macos_external_bin_in_app_bundle() {
    let resource_dir = "/Apps/CliRelay Desktop.app/Contents/Resources";
    let candidates = sidecar_candidates(
        resource_dir,
        Some("/Apps/CliRelay Desktop.app/Contents"),
        "/src/src-tauri",
    );
    assert_eq!(
        candidates,
        vec![
            "/Apps/CliRelay Desktop.app/Contents/MacOS/clirelay".to_string(),
            "/Apps/CliRelay Desktop.app/Contents/Resources/binaries/clirelay-aarch64-apple-darwin".to_string(),
            "/Apps/CliRelay Desktop.app/Contents/Resources/clirelay-aarch64-apple-darwin".to_string(),
            "/src/src-tauri/binaries/clirelay-aarch64-apple-darwin".to_string(),
        ]
    );
    let resolved = first_existing_path(&candidates, &vec![true, false, false, true]);
    assert_eq!(resolved, "/Apps/CliRelay Desktop.app/Contents/MacOS/clirelay");
    let dev = first_existing_path(&candidates, &vec![false, false, false, true]);
    assert_eq!(dev, "/src/src-tauri/binaries/clirelay-aarch64-apple-darwin");
    let fallback = first_existing_path(&candidates, &vec![false; 4]);
    assert_eq!(fallback, candidates[0]);
    assert_eq!(sidecar_candidates("res", None, "m")[0], "res/clirelay");
}

#[test]
fn bundled_resources_are_looked_up_in_the_bundle_first() {
    assert_eq!(
        bundled_resource_candidates("/res", "/src", "panel"),
        vec!["/res/resources/panel".to_string(), "/src/resources/panel".to_string()]
    );
}
