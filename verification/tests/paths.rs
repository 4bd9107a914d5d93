use clirelay_desktop_lib::paths::{join_path, DesktopPaths};
use std::path::Path;

#[test]
fn derives_expected_macos_runtime_and_log_paths() {
    let paths = DesktopPaths::from_home_dir("/Users/tester");

    assert_eq!(
        paths.runtime_dir,
        "/Users/tester/Library/Application Support/CliRelay Desktop/runtime"
    );
    assert_eq!(
        paths.state_dir,
        "/Users/tester/Library/Application Support/CliRelay Desktop/state"
    );
    assert_eq!(paths.log_dir, "/Users/tester/Library/Logs/CliRelay Desktop");
    assert_eq!(
        paths.panel_dir,
        "/Users/tester/Library/Application Support/CliRelay Desktop/runtime/panel"
    );
    assert_eq!(
        paths.runtime_sidecar_executable,
        "/Users/tester/Library/Application Support/CliRelay Desktop/runtime/sidecar/cli-proxy-api"
    );
    assert_eq!(
        paths.update_downloads_dir,
        "/Users/tester/Library/Application Support/CliRelay Desktop/state/downloads"
    );
    assert_eq!(
        paths.update_staging_dir,
        "/Users/tester/Library/Application Support/CliRelay Desktop/state/update-staging"
    );
}

#[test]
fn keeps_state_files_out_of_runtime_directory() {
    let paths = DesktopPaths::from_home_dir("/Users/tester");

    assert_ne!(
        Path::new(&paths.runtime_state_file).parent(),
        Some(Path::new(&paths.runtime_dir))
    );
    assert_eq!(
        Path::new(&paths.runtime_state_file).parent(),
        Some(Path::new(&paths.state_dir))
    );
    assert_eq!(
        Path::new(&paths.component_state_file).parent(),
        Some(Path::new(&paths.state_dir))
    );
    assert_eq!(
        Path::new(&paths.config_file).parent(),
        Some(Path::new(&paths.runtime_dir))
    );
}

#[test]
fn join_path_follows_path_join() {
    assert_eq!(join_path("/a/b", "c"), "/a/b/c");
    assert_eq!(join_path("/a/b/", "c"), "/a/b/c");
    assert_eq!(join_path("", "c"), "c");
    assert_eq!(join_path("/a", "/etc"), "/etc");
    assert_eq!(
        join_path("/a/b", "c"),
        Path::new("/a/b").join("c").to_string_lossy()
    );
}

#[test]
fn base_dirs_layout_matches_home_layout() {
    let from_home = DesktopPaths::from_home_dir("/Users/tester");
    let from_base = DesktopPaths::from_base_dirs(
        "/Users/tester/Library/Application Support/CliRelay Desktop".to_string(),
        "/Users/tester/Library/Logs/CliRelay Desktop".to_string(),
    );
    assert_eq!(from_home, from_base);
    assert_eq!(
        DesktopPaths::for_test("/tmp/app-data".to_string(), "/tmp/logs".to_string()).desktop_log,
        "/tmp/logs/desktop.log"
    );
}
