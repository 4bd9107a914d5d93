use clirelay_desktop_lib::paths::DesktopPaths;
use clirelay_desktop_lib::settings::{
    check_panel_entrypoint, ensure_panel_resources, management_secret_state_from_config,
    render_config_with_management_secret, render_runtime_config, DesktopLocale, DesktopSettings,
    ManagementSecretStatus, SettingsError, SETTINGS_SCHEMA_VERSION,
};

#[test]
fn default_settings_use_chinese_locale() {
    let settings = DesktopSettings::default();

    assert_eq!(settings.locale, DesktopLocale::ZhCn);
}

#[test]
fn default_settings_have_schema_version_one_and_port_8317() {
    let settings = DesktopSettings::default();
    assert_eq!(settings.schema_version, SETTINGS_SCHEMA_VERSION);
    assert_eq!(settings.schema_version, 1);
    assert_eq!(settings.port, 8317);
    assert!(settings.open_panel_on_start);
}

#[test]
fn rejects_ports_below_1024() {
    assert!(DesktopSettings::default().with_port(1023).is_err());
}

#[test]
fn accepts_lowest_user_port() {
    assert_eq!(
        DesktopSettings::default().with_port(1024).unwrap().port,
        1024
    );
}

#[test]
fn accepts_highest_port() {
    assert_eq!(
        DesktopSettings::default().with_port(65535).unwrap().port,
        65535
    );
}

#[test]
fn invalid_port_message_names_the_port() {
    let error = DesktopSettings::validate_port(80).unwrap_err();
    assert!(matches!(error, SettingsError::InvalidPort(80)));
    assert_eq!(error.to_string(), "端口必须在 1024-65535 范围内: 80");
}

#[test]
fn writes_config_with_desktop_port_and_auto_update_disabled() {
    let source = [
        "host: \"\"",
        "port: 9000",
        "remote-management:",
        "  disable-control-panel: false",
        "  panel-github-repository: \"https://github.com/kittors/codeProxy\"",
        "auto-update:",
        "  enabled: true",
        "  channel: main",
        "",
    ]
    .join("\n");

    let settings = DesktopSettings::default().with_port(8317).unwrap();
    let config = render_runtime_config(&source, settings.port).expect("render should succeed");

    assert!(config.contains("port: 8317"));
    assert!(config.contains("auto-update:\n  enabled: false"));
    assert!(config.contains("remote-management:\n  disable-control-panel: false"));
    assert!(config.contains("panel-github-repository: \"https://github.com/kittors/codeProxy\""));
    assert!(!config.contains("port: 9000"));
    assert!(config.ends_with('\n'));
}

#[test]
fn rendering_a_rendered_config_again_changes_nothing() {
    let source = "port: 9000\r\nauto-update:\r\n    enabled: true\r\n    channel: main\r\nhost: x";
    let once = render_runtime_config(source, 8318).unwrap();
    assert_eq!(once, "port: 8318\nauto-update:\n    enabled: false\n    channel: main\nhost: x");
    assert_eq!(once.lines().count(), source.lines().count());
    assert_eq!(render_runtime_config(&once, 8318).unwrap(), once);
    let twice_fed = render_runtime_config("auto-update:\n  enabled: yes\nport: 1\n", 2000).unwrap();
    assert_eq!(twice_fed, "auto-update:\n  enabled: false\nport: 2000\n");
    assert_eq!(render_runtime_config(&twice_fed, 2000).unwrap(), twice_fed);
}

#[test]
fn a_carriage_return_left_before_a_feed_goes_on_the_second_rendering() {
    let source = "port: 1\nnote\r\r\nauto-update:\n  enabled: true\n";
    let once = render_runtime_config(source, 8317).unwrap();
    assert_eq!(once, "port: 8317\nnote\r\nauto-update:\n  enabled: false\n");
    let twice = render_runtime_config(&once, 8317).unwrap();
    assert_eq!(twice, "port: 8317\nnote\nauto-update:\n  enabled: false\n");
    assert_eq!("note\r\r\n".lines().collect::<Vec<_>>(), vec!["note\r"]);
    let rewritten = render_runtime_config("port: 1\r\r\nauto-update:\n  enabled: true\r\r\n", 8317).unwrap();
    assert_eq!(rewritten, "port: 8317\nauto-update:\n  enabled: false\n");
    assert_eq!(render_runtime_config(&rewritten, 8317).unwrap(), rewritten);
}

#[test]
fn rendering_refuses_configs_without_port_or_auto_update_switch() {
    assert!(matches!(
        render_runtime_config("host: x\nauto-update:\n  enabled: true\n", 8317),
        Err(SettingsError::MissingTopLevelPort)
    ));
    assert!(matches!(
        render_runtime_config("port: 1\n", 8317),
        Err(SettingsError::MissingAutoUpdateEnabled)
    ));
    assert!(matches!(
        render_runtime_config("port: 1\nauto-update:\n  enabled: true\n", 80),
        Err(SettingsError::InvalidPort(80))
    ));
    assert_eq!(
        render_runtime_config("  port: 1\nport: 2\nauto-update:\n  enabled: true\nenabled: true", 8317).unwrap(),
        "  port: 1\nport: 8317\nauto-update:\n  enabled: false\nenabled: true"
    );
}

#[test]
fn detects_missing_management_secret_key_variants() {
    for config in [
        "remote-management:\n  secret-key: \"\"\n",
        "remote-management:\n  secret-key:\n",
        "remote-management:\n  allow-remote: false\n",
        "port: 8317\n",
    ] {
        assert_eq!(
            management_secret_state_from_config(config).unwrap(),
            ManagementSecretStatus::Missing
        );
    }
}

#[test]
fn detects_configured_management_secret_key() {
    let config = "remote-management:\n  secret-key: \"abc: 123\"\n";

    assert_eq!(
        management_secret_state_from_config(config).unwrap(),
        ManagementSecretStatus::Configured
    );
}

#[test]
fn replaces_existing_management_secret_key() {
    let config = [
        "port: 8317",
        "remote-management:",
        "  allow-remote: false",
        "  secret-key: \"\"",
        "  disable-control-panel: false",
        "",
    ]
    .join("\n");

    let updated = render_config_with_management_secret(&config, "abc: 123").unwrap();

    assert!(updated.contains("secret-key: \"abc: 123\""));
    assert!(updated.contains("disable-control-panel: false"));
}

#[test]
fn inserts_management_secret_key_when_field_is_missing() {
    let config = [
        "port: 8317",
        "remote-management:",
        "  allow-remote: false",
        "  disable-control-panel: false",
        "",
    ]
    .join("\n");

    let updated = render_config_with_management_secret(&config, "abc#123").unwrap();

    assert!(updated.contains("remote-management:\n  secret-key: \"abc#123\"\n"));
    assert!(updated.contains("  disable-control-panel: false"));
}

#[test]
fn appends_remote_management_section_when_missing() {
    let config = "port: 8317\n";

    let updated = render_config_with_management_secret(config, "abc").unwrap();

    assert!(updated.ends_with("remote-management:\n  secret-key: \"abc\"\n"));
}

#[test]
fn a_written_secret_reads_back_as_configured() {
    let config = "port: 8317\nremote-management:\n  secret-key: \"\"\n";
    assert_eq!(
        management_secret_state_from_config(config).unwrap(),
        ManagementSecretStatus::Missing
    );
    let updated = render_config_with_management_secret(config, "s3cret").unwrap();
    assert_eq!(
        management_secret_state_from_config(&updated).unwrap(),
        ManagementSecretStatus::Configured
    );
}

#[test]
fn a_written_secret_reads_back_from_crlf_configs_and_new_sections() {
    let config = "port: 8317\r\nremote-management:\r\n    allow-remote: false\r\n";
    let updated = render_config_with_management_secret(config, "tab\tkey").unwrap();
    assert_eq!(
        updated,
        "port: 8317\nremote-management:\n    secret-key: \"tab\\tkey\"\n    allow-remote: false\n"
    );
    assert_eq!(
        management_secret_state_from_config(&updated).unwrap(),
        ManagementSecretStatus::Configured
    );
    let appended = render_config_with_management_secret("port: 8317", "k").unwrap();
    assert_eq!(appended, "port: 8317\nremote-management:\n  secret-key: \"k\"");
    assert_eq!(
        management_secret_state_from_config(&appended).unwrap(),
        ManagementSecretStatus::Configured
    );
}

#[test]
fn secrets_that_show_a_character_inside_apostrophes_read_back_as_configured() {
    for key in ["' ' '", "' a '", "\"", "'\\'", "  x  "] {
        let updated = render_config_with_management_secret("port: 8317\n", key).unwrap();
        assert_eq!(
            management_secret_state_from_config(&updated).unwrap(),
            ManagementSecretStatus::Configured,
            "{key}"
        );
    }
}

#[test]
fn a_lone_apostrophe_secret_reads_back_as_missing() {
    let updated = render_config_with_management_secret("port: 8317\n", "'").unwrap();
    assert_eq!(
        management_secret_state_from_config(&updated).unwrap(),
        ManagementSecretStatus::Missing
    );
}

#[test]
fn rejects_panel_copy_without_entrypoint() {
    let error = check_panel_entrypoint("/bundle/panel", false).unwrap_err();
    assert!(matches!(&error, SettingsError::MissingPanelEntrypoint(p) if p == "/bundle/panel/manage.html"));
    assert!(check_panel_entrypoint("/bundle/panel", true).is_ok());
}

#[test]
fn panel_is_rebuilt_only_without_its_entry_page() {
    let paths = DesktopPaths::for_test("/tmp/app-data".to_string(), "/tmp/logs".to_string());
    assert_eq!(ensure_panel_resources(&paths, true), None);
    assert_eq!(ensure_panel_resources(&paths, false), Some(paths.panel_dir.clone()));
}
