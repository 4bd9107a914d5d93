use clirelay_desktop_lib::paths::DesktopPaths;
use clirelay_desktop_lib::runtime_resources::{
    ensure_runtime_config_present, repair_report, sidecar_repair_needed, RuntimeRepairReport,
    RuntimeResourceError,
};

#[test]
fn leaves_missing_config_for_startup_import_gate() {
    let paths = DesktopPaths::for_test("/tmp/app-data".to_string(), "/tmp/logs".to_string());
    let report = repair_report(true, true);
    assert!(!report.config_rebuilt);
    let error = ensure_runtime_config_present(&paths, false).unwrap_err();
    assert!(matches!(&error, RuntimeResourceError::MissingRuntimeConfig(p) if *p == paths.config_file));
    assert_eq!(error.to_string(), format!("CliRelay config 文件不存在: {}", paths.config_file));
    assert!(ensure_runtime_config_present(&paths, true).is_ok());
}

#[test]
fn sidecar_is_rebuilt_only_when_missing_and_bundled() {
    assert_eq!(sidecar_repair_needed(true, false, "/b/sidecar").unwrap(), false);
    assert_eq!(sidecar_repair_needed(false, true, "/b/sidecar").unwrap(), true);
    let error = sidecar_repair_needed(false, false, "/b/sidecar").unwrap_err();
    assert_eq!(error.to_string(), "app bundle 中缺少 CliRelay sidecar: /b/sidecar");
    assert_eq!(
        RuntimeRepairReport::default(),
        RuntimeRepairReport { sidecar_rebuilt: false, panel_rebuilt: false, config_rebuilt: false }
    );
}
