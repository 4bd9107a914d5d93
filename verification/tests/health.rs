use clirelay_desktop_lib::service::health::{
    check_panel_ready, http_get_request, panel_check_path, panel_check_step, probe_port,
    FetchErrorKind, HealthFailureTracker, HealthStatus, HttpResponse, PanelCheckStage,
    PanelCheckStep, PortProbe,
};
use clirelay_desktop_lib::service::state::ServiceEvent;

fn html_response(body: &str) -> String {
    format!(
        "HTTP/1.1 200 OK\r\nContent-Type: text/html; charset=utf-8\r\nContent-Length: {}\r\n\r\n{}",
        body.len(),
        body
    )
}

#[test]
fn three_consecutive_health_failures_emit_unhealthy_event() {
    let mut tracker = HealthFailureTracker::default();

    assert_eq!(tracker.record(HealthStatus::TcpClosed), None);
    assert_eq!(tracker.record(HealthStatus::ManageTimeout), None);
    assert_eq!(
        tracker.record(HealthStatus::TcpClosed),
        Some(ServiceEvent::HealthFailedThreeTimes)
    );
}

#[test]
fn a_success_resets_the_failure_count() {
    let mut tracker = HealthFailureTracker::default();
    assert_eq!(tracker.record(HealthStatus::TcpClosed), None);
    assert_eq!(tracker.record(HealthStatus::TcpClosed), None);
    assert_eq!(tracker.record(HealthStatus::ManageReady), None);
    assert_eq!(tracker.record(HealthStatus::TcpClosed), None);
    assert_eq!(tracker.record(HealthStatus::TcpClosed), None);
    assert_eq!(
        tracker.record(HealthStatus::ManageTimeout),
        Some(ServiceEvent::HealthFailedThreeTimes)
    );
    assert_eq!(tracker.record(HealthStatus::ManageTimeout), None);
}

#[test]
fn the_event_fires_once_per_run_even_past_255_failures() {
    let mut tracker = HealthFailureTracker::default();
    let mut events = 0;
    for _ in 0..600 {
        if tracker.record(HealthStatus::TcpClosed).is_some() {
            events += 1;
        }
    }
    assert_eq!(events, 1);
}

#[test]
fn parses_status_and_lower_cased_trimmed_headers() {
    let response = HttpResponse::parse(&html_response("<html>manage</html>")).expect("valid response");
    assert_eq!(response.status_code, 200);
    assert_eq!(
        response.headers,
        vec![
            ("content-type".to_string(), "text/html; charset=utf-8".to_string()),
            ("content-length".to_string(), "19".to_string()),
        ]
    );
    assert!(response.is_html_ok());
    assert!(!response.is_redirect_to("/manage/login"));
}

#[test]
fn refuses_responses_without_head_or_status_code() {
    assert!(HttpResponse::parse("HTTP/1.1 200 OK\r\nContent-Type: text/html").is_none());
    assert!(HttpResponse::parse("\r\n\r\n").is_none());
    assert!(HttpResponse::parse("HTTP/1.1\r\n\r\n").is_none());
    assert!(HttpResponse::parse("HTTP/1.1 abc OK\r\n\r\n").is_none());
    assert!(HttpResponse::parse("HTTP/1.1 70000 OK\r\n\r\n").is_none());
    assert_eq!(HttpResponse::parse("HTTP/1.1 +302 Found\r\n\r\n").map(|r| r.status_code), Some(302));
}

#[test]
fn the_last_header_of_a_name_wins_and_lines_without_colon_are_skipped() {
    let raw = "HTTP/1.1 302 Found\r\nLocation: /other\r\nbogus line\r\n  LOCATION :  /manage/login \r\n\r\n";
    let response = HttpResponse::parse(raw).expect("valid response");
    assert_eq!(response.headers.len(), 2);
    assert!(response.is_redirect_to("/manage/login"));
    assert!(!response.is_html_ok());
}

#[test]
fn json_answers_are_not_the_panel() {
    let raw = "HTTP/1.1 200 OK\r\nContent-Type: application/json\r\nContent-Length: 2\r\n\r\n{}";
    let response = HttpResponse::parse(raw).expect("valid response");
    assert!(!response.is_html_ok());
    assert_eq!(
        panel_check_step(PanelCheckStage::Manage, Ok(raw)),
        PanelCheckStep::Fetch(PanelCheckStage::Login)
    );
}

#[test]
fn manage_redirect_to_login_is_panel_ready() {
    let redirect = "HTTP/1.1 302 Found\r\nLocation: /manage/login\r\nContent-Length: 0\r\n\r\n";
    let step = panel_check_step(PanelCheckStage::Manage, Ok(redirect));
    assert_eq!(step, PanelCheckStep::Fetch(PanelCheckStage::RedirectedLogin));
    assert_eq!(panel_check_path(PanelCheckStage::RedirectedLogin), "/manage/login");
    let login = html_response("<html>login</html>");
    assert_eq!(
        panel_check_step(PanelCheckStage::RedirectedLogin, Ok(&login)),
        PanelCheckStep::Finished(HealthStatus::ManageReady)
    );
}

#[test]
fn manage_login_html_is_panel_ready() {
    let not_found = "HTTP/1.1 404 Not Found\r\nContent-Type: text/plain\r\nContent-Length: 0\r\n\r\n";
    assert_eq!(
        panel_check_step(PanelCheckStage::Manage, Ok(not_found)),
        PanelCheckStep::Fetch(PanelCheckStage::Login)
    );
    let login = html_response("<html>login</html>");
    assert_eq!(
        panel_check_step(PanelCheckStage::Login, Ok(&login)),
        PanelCheckStep::Finished(HealthStatus::ManageReady)
    );
}

#[test]
fn manage_html_returns_clirelay_like() {
    let page = html_response("<html>manage</html>");
    let step = panel_check_step(PanelCheckStage::Manage, Ok(&page));
    assert_eq!(step, PanelCheckStep::Finished(HealthStatus::ManageReady));
    assert_eq!(probe_port(Ok(HealthStatus::ManageReady)), PortProbe::OccupiedCliRelayLike);
}

#[test]
fn free_port_returns_free() {
    assert_eq!(
        panel_check_step(PanelCheckStage::Manage, Err(FetchErrorKind::ConnectionRefused)),
        PanelCheckStep::Failed(FetchErrorKind::ConnectionRefused)
    );
    assert_eq!(probe_port(Err(FetchErrorKind::ConnectionRefused)), PortProbe::Free);
    assert_eq!(probe_port(Err(FetchErrorKind::Other)), PortProbe::Free);
}

#[test]
fn unknown_http_service_returns_occupied_unknown() {
    let raw = "HTTP/1.1 200 OK\r\nContent-Type: application/json\r\nContent-Length: 2\r\n\r\n{}";
    assert_eq!(
        panel_check_step(PanelCheckStage::Login, Ok(raw)),
        PanelCheckStep::Finished(HealthStatus::ManageTimeout)
    );
    assert_eq!(probe_port(Ok(HealthStatus::ManageTimeout)), PortProbe::OccupiedUnknown);
    assert_eq!(probe_port(Err(FetchErrorKind::TimedOut)), PortProbe::OccupiedUnknown);
}

#[test]
fn errors_at_the_last_stage_count_as_not_ready() {
    assert_eq!(
        panel_check_step(PanelCheckStage::Login, Err(FetchErrorKind::ConnectionRefused)),
        PanelCheckStep::Finished(HealthStatus::ManageTimeout)
    );
    assert_eq!(
        panel_check_step(PanelCheckStage::RedirectedLogin, Ok("garbage")),
        PanelCheckStep::Failed(FetchErrorKind::Other)
    );
    assert_eq!(check_panel_ready(Err(FetchErrorKind::TimedOut)), HealthStatus::ManageTimeout);
    assert_eq!(check_panel_ready(Ok(HealthStatus::ManageReady)), HealthStatus::ManageReady);
}

#[test]
fn get_requests_name_path_host_and_port() {
    assert_eq!(
        http_get_request("127.0.0.1", 8317, "/manage"),
        "GET /manage HTTP/1.1\r\nHost: 127.0.0.1:8317\r\nConnection: close\r\nAccept: text/html,*/*\r\n\r\n"
    );
}
