use clirelay_desktop_lib::platform::{started_at_from_ps, ProcessQueryError};
use clirelay_desktop_lib::time::UtcTime;

#[test]
fn reads_the_start_time_that_ps_prints() {
    assert_eq!(
        started_at_from_ps(true, "Mon Jan  1 00:00:00 2024\n"),
        Ok(UtcTime { secs: 1704067200, nanos: 0 })
    );
    assert_eq!(
        started_at_from_ps(true, "  Tue Jan  2 03:04:05 2024  "),
        Ok(UtcTime { secs: 1704164645, nanos: 0 })
    );
}

#[test]
fn a_failed_or_empty_ps_means_no_such_process() {
    assert_eq!(started_at_from_ps(false, "Mon Jan  1 00:00:00 2024\n"), Err(ProcessQueryError::NotFound));
    assert_eq!(started_at_from_ps(true, " \n"), Err(ProcessQueryError::NotFound));
}

#[test]
fn unreadable_ps_output_is_invalid_data() {
    assert_eq!(started_at_from_ps(true, "yesterday"), Err(ProcessQueryError::InvalidData));
}
