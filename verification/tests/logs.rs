use clirelay_desktop_lib::paths::DesktopPaths;
use clirelay_desktop_lib::service::logs::{
    append_clirelay_output_line, append_desktop_log_line, redact_log_line, rotated_log_path,
    rotation_plan, ui_readable_log_files, RotationStep, MAX_LOG_BYTES, MAX_ROTATED_FILES,
};

fn test_paths() -> DesktopPaths {
    DesktopPaths::for_test("/tmp/app-data".to_string(), "/tmp/logs".to_string())
}

#[test]
fn redacts_authorization_headers_in_desktop_logs() {
    assert_eq!(
        redact_log_line("Authorization: Bearer abc"),
        "Authorization: [REDACTED]"
    );
    assert_eq!(
        redact_log_line("authorization: token"),
        "authorization: [REDACTED]"
    );
}

#[test]
fn redacts_cookie_and_token_like_values_in_desktop_logs() {
    assert_eq!(redact_log_line("api_key=abc"), "api_key=[REDACTED]");
    assert_eq!(redact_log_line("api-key: abc"), "api-key: [REDACTED]");
    assert_eq!(redact_log_line("cookie: abc"), "cookie: [REDACTED]");
    assert_eq!(redact_log_line("oauth_token=abc"), "oauth_token=[REDACTED]");
}

#[test]
fn redacts_management_secret_key() {
    assert_eq!(redact_log_line("secret-key: abc"), "secret-key: [REDACTED]");
}

#[test]
fn exposes_only_desktop_log_to_ui() {
    let paths = test_paths();

    let ui_logs = ui_readable_log_files(&paths);

    assert_eq!(ui_logs, vec![paths.desktop_log.clone()]);
    assert!(!ui_logs.contains(&paths.clirelay_log));
}

#[test]
fn writes_redacted_desktop_log_lines() {
    let paths = test_paths();

    let append = append_desktop_log_line(&paths, "Authorization: Bearer abc");

    assert_eq!(append.path, paths.desktop_log);
    assert_eq!(format!("{}\n", append.line), "Authorization: [REDACTED]\n");
}

#[test]
fn captures_clirelay_stdout_stderr_without_redaction() {
    let paths = test_paths();

    let append = append_clirelay_output_line(&paths, "Authorization: Bearer abc");

    assert_eq!(append.path, paths.clirelay_log);
    assert_eq!(format!("{}\n", append.line), "Authorization: Bearer abc\n");
    assert!(!ui_readable_log_files(&paths).contains(&paths.clirelay_log));
}

#[test]
fn redaction_keeps_text_before_the_marker_and_lines_without_markers() {
    assert_eq!(
        redact_log_line("GET /v1 Authorization: Bearer abc"),
        "GET /v1 Authorization: [REDACTED]"
    );
    assert_eq!(redact_log_line("service started"), "service started");
    assert_eq!(redact_log_line(""), "");
}

#[test]
fn redaction_cuts_at_the_earliest_of_several_markers() {
    assert_eq!(
        redact_log_line("user api_key=1 then Authorization: Bearer x"),
        "user api_key=[REDACTED]"
    );
    assert_eq!(
        redact_log_line("cookie: a=1; secret-key: s"),
        "cookie: [REDACTED]"
    );
    assert_eq!(
        redact_log_line("oauth_token=t authorization: b"),
        "oauth_token=[REDACTED]"
    );
}

#[test]
fn rotated_paths_append_the_index() {
    assert_eq!(rotated_log_path("/tmp/logs/desktop.log", 1), "/tmp/logs/desktop.log.1");
    assert_eq!(rotated_log_path("/tmp/logs/desktop.log", 12), "/tmp/logs/desktop.log.12");
}

#[test]
fn rotation_happens_only_above_the_size_limit() {
    let none = vec![false; MAX_ROTATED_FILES];
    assert!(rotation_plan("/tmp/d.log", None, &none).is_none());
    assert!(rotation_plan("/tmp/d.log", Some(MAX_LOG_BYTES), &none).is_none());
    let plan = rotation_plan("/tmp/d.log", Some(MAX_LOG_BYTES + 1), &none).expect("should rotate");
    assert_eq!(plan.len(), 1);
    assert!(matches!(&plan[0], RotationStep::Rename(from, to) if from == "/tmp/d.log" && to == "/tmp/d.log.1"));
}

#[test]
fn rotation_plan_drops_the_oldest_and_shifts_the_rest() {
    let all = vec![true; MAX_ROTATED_FILES];
    let plan = rotation_plan("/tmp/d.log", Some(MAX_LOG_BYTES + 1), &all).expect("should rotate");
    assert_eq!(plan.len(), 6);
    assert!(matches!(&plan[0], RotationStep::Remove(p) if p == "/tmp/d.log.5"));
    assert!(matches!(&plan[1], RotationStep::Rename(f, t) if f == "/tmp/d.log.4" && t == "/tmp/d.log.5"));
    assert!(matches!(&plan[4], RotationStep::Rename(f, t) if f == "/tmp/d.log.1" && t == "/tmp/d.log.2"));
    assert!(matches!(&plan[5], RotationStep::Rename(f, t) if f == "/tmp/d.log" && t == "/tmp/d.log.1"));
}
