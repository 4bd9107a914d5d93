use clirelay_desktop_lib::component_update::{
    backup_dir, backup_target, check_candidate, current_component_versions, current_sidecar_sha256,
    download_target, record_installed_component, runtime_sidecar_if_valid, staging_dir,
    verify_sha256, BundledVersions, ComponentRecord, ComponentState, ComponentUpdateError,
};
use clirelay_desktop_lib::paths::DesktopPaths;
use clirelay_desktop_lib::service::state::ServiceStatus;
use clirelay_desktop_lib::time::UtcTime;
use clirelay_desktop_lib::update_check::{ComponentUpdateCandidate, UpdateSubject, UpstreamComponent};
use clirelay_desktop_lib::web_url::parse_web_url;

fn paths() -> DesktopPaths {
    DesktopPaths::for_test("/tmp/app-data".to_string(), "/tmp/logs".to_string())
}

fn bundled() -> BundledVersions {
    BundledVersions {
        clirelay_version: "v0.3.0".to_string(),
        code_proxy_version: "v0.2.0".to_string(),
        clirelay_sha256: "bundled-sha".to_string(),
    }
}

fn candidate(subject: UpdateSubject) -> ComponentUpdateCandidate {
    ComponentUpdateCandidate {
        subject,
        version: "v0.4.1".to_string(),
        release_url: parse_web_url("https://github.com/kittors/CliRelay/releases/tag/v0.4.1").unwrap(),
        asset_name: "CliRelay_0.4.1_darwin_arm64.tar.gz".to_string(),
        asset_url: parse_web_url(
            "https://github.com/kittors/CliRelay/releases/download/v0.4.1/CliRelay_0.4.1_darwin_arm64.tar.gz",
        )
        .unwrap(),
        asset_sha256: "b".repeat(64),
    }
}

#[test]
fn sha256_of_abc_is_verified_in_any_case() {
    let digest = "ba7816bf8f01cfea414140de5dae2223b00361a396177a9cb410ff61f20015ad";
    assert!(verify_sha256(b"abc", digest).is_ok());
    assert!(verify_sha256(b"abc", &digest.to_uppercase()).is_ok());
    let error = verify_sha256(b"abd", digest).unwrap_err();
    assert!(error.to_string().starts_with("下载文件 SHA-256 不匹配: expected ba7816bf"));
    assert!(error.to_string().contains(", actual "));
}

#[test]
fn versions_come_from_records_or_the_bundle() {
    let empty = ComponentState::default();
    assert_eq!(
        current_component_versions(&empty, &bundled()),
        ("v0.3.0".to_string(), "v0.2.0".to_string())
    );
    assert_eq!(current_sidecar_sha256(&empty, &bundled()), "bundled-sha");

    let installed = record_installed_component(
        &ComponentState::initial(),
        &candidate(UpdateSubject::CliRelay),
        UtcTime { secs: 100, nanos: 0 },
    );
    assert_eq!(installed.schema_version, 1);
    assert_eq!(
        current_component_versions(&installed, &bundled()),
        ("v0.4.1".to_string(), "v0.2.0".to_string())
    );
    assert_eq!(current_sidecar_sha256(&installed, &bundled()), "b".repeat(64));
    let record: &ComponentRecord = installed.clirelay.as_ref().unwrap();
    assert_eq!(
        record.asset_url.as_deref(),
        Some("https://github.com/kittors/CliRelay/releases/download/v0.4.1/CliRelay_0.4.1_darwin_arm64.tar.gz")
    );
    assert!(installed.code_proxy.is_none());
}

#[test]
fn runtime_sidecar_is_used_only_when_installed_and_present() {
    let p = paths();
    let installed = record_installed_component(
        &ComponentState::initial(),
        &candidate(UpdateSubject::CliRelay),
        UtcTime { secs: 1, nanos: 0 },
    );
    assert_eq!(
        runtime_sidecar_if_valid(&p, true, Some(&installed)),
        Some(p.runtime_sidecar_executable.clone())
    );
    assert_eq!(runtime_sidecar_if_valid(&p, false, Some(&installed)), None);
    assert_eq!(runtime_sidecar_if_valid(&p, true, None), None);
    assert_eq!(runtime_sidecar_if_valid(&p, true, Some(&ComponentState::initial())), None);
}

#[test]
fn candidates_must_match_the_component_and_its_release_feed() {
    assert!(check_candidate(&candidate(UpdateSubject::CliRelay), UpstreamComponent::CliRelay).is_ok());
    assert!(matches!(
        check_candidate(&candidate(UpdateSubject::CodeProxy), UpstreamComponent::CliRelay),
        Err(ComponentUpdateError::InvalidArchivePath(name)) if name == "CliRelay_0.4.1_darwin_arm64.tar.gz"
    ));
    let mut wrong_feed = candidate(UpdateSubject::CodeProxy);
    wrong_feed.asset_name = "panel-dist.zip".to_string();
    let error = check_candidate(&wrong_feed, UpstreamComponent::CodeProxy).unwrap_err();
    assert!(error.to_string().contains("kittors/codeProxy"));
}

#[test]
fn update_work_paths() {
    let p = paths();
    let (dir, file) = download_target(&p, "clirelay", &candidate(UpdateSubject::CliRelay));
    assert_eq!(dir, "/tmp/app-data/state/downloads/clirelay/v0.4.1");
    assert_eq!(file, "/tmp/app-data/state/downloads/clirelay/v0.4.1/CliRelay_0.4.1_darwin_arm64.tar.gz.download");
    assert_eq!(staging_dir(&p, "codeproxy", "v0.4.1"), "/tmp/app-data/state/update-staging/codeproxy/v0.4.1");
    assert_eq!(
        backup_dir(&p, "clirelay", "vv0.4.0", "20260615000000"),
        format!("{}/clirelay/0.4.0-20260615000000", p.backups_dir)
    );
}

#[test]
fn backup_directories_are_named_with_the_utc_clock() {
    let p = paths();
    let now = UtcTime { secs: 1704164645, nanos: 0 };
    assert_eq!(
        backup_target(&p, "clirelay", "v0.4.1", now).unwrap(),
        format!("{}/clirelay/0.4.1-20240102030405", p.backups_dir)
    );
    assert_eq!(backup_target(&p, "codeproxy", "0.4.7", UtcTime { secs: i64::MAX, nanos: 0 }), None);
}

#[test]
fn component_error_messages() {
    assert_eq!(
        ComponentUpdateError::InvalidServiceStatus(ServiceStatus::Stopping).to_string(),
        "当前服务状态不允许安装 CliRelay 热更: Stopping"
    );
    assert_eq!(
        ComponentUpdateError::InvalidArchivePath("../x".to_string()).to_string(),
        "压缩包路径不安全: ../x"
    );
    assert_eq!(
        ComponentUpdateError::MissingPanelEntrypoint("/p/manage.html".to_string()).to_string(),
        "codeProxy 解包后缺少 manage.html: /p/manage.html"
    );
}
