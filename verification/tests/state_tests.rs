use flatline::model::{Monitor, MonitorCheckStatus, MonitorConfig};
use flatline::monitor_state::{
    check_status_of, down_event_error, status_from_check, validate_check_result, CheckOutcome,
    Status,
};

fn monitor(retries: u32) -> Monitor {
    Monitor {
        id: "m1".to_string(),
        name: "api".to_string(),
        enabled: true,
        interval: 60,
        timeout: 10,
        retries,
        config: MonitorConfig::Http {
            url: "https://example.com".to_string(),
            method: None,
            expected_status: vec![],
        },
    }
}

fn outcome(status: Status) -> CheckOutcome {
    CheckOutcome { status, status_code: None, response_time_ms: 5, error: None }
}

#[test]
fn down_only_after_retry_budget() {
    let m = monitor(2);
    let mut st = Status::Up;
    let mut fails = 0u32;
    assert_eq!(validate_check_result(&m, &mut st, &outcome(Status::Down), &mut fails), (false, false));
    assert_eq!(st, Status::Up);
    assert_eq!(validate_check_result(&m, &mut st, &outcome(Status::Down), &mut fails), (false, false));
    assert_eq!(validate_check_result(&m, &mut st, &outcome(Status::Down), &mut fails), (true, false));
    assert_eq!(st, Status::Down);
    assert_eq!(fails, 3);
    // Further failures do not alert again.
    assert_eq!(validate_check_result(&m, &mut st, &outcome(Status::Unknown), &mut fails), (false, false));
    assert_eq!(st, Status::Down);
    // Recovery.
    assert_eq!(validate_check_result(&m, &mut st, &outcome(Status::Up), &mut fails), (false, true));
    assert_eq!(st, Status::Up);
    assert_eq!(fails, 0);
}

#[test]
fn unknown_settles_without_alerts() {
    let m = monitor(0);
    let mut st = Status::Unknown;
    let mut fails = 0u32;
    assert_eq!(validate_check_result(&m, &mut st, &outcome(Status::Down), &mut fails), (false, false));
    assert_eq!(st, Status::Down);
    let mut st2 = Status::Unknown;
    let mut f2 = 7u32;
    assert_eq!(validate_check_result(&m, &mut st2, &outcome(Status::Up), &mut f2), (false, false));
    assert_eq!(st2, Status::Up);
    assert_eq!(f2, 0);
}

#[test]
fn unknown_with_budget_stays_unknown() {
    let m = monitor(1);
    let mut st = Status::Unknown;
    let mut fails = 0u32;
    validate_check_result(&m, &mut st, &outcome(Status::Down), &mut fails);
    assert_eq!(st, Status::Unknown);
    validate_check_result(&m, &mut st, &outcome(Status::Down), &mut fails);
    assert_eq!(st, Status::Down);
}

#[test]
fn alerts_alternate_over_a_run() {
    let m = monitor(0);
    let mut st = Status::Up;
    let mut fails = 0u32;
    let mut downs = 0;
    let mut ups = 0;
    let seq = [Status::Down, Status::Down, Status::Up, Status::Up, Status::Unknown, Status::Up, Status::Down];
    for s in seq {
        let (d, u) = validate_check_result(&m, &mut st, &outcome(s), &mut fails);
        assert!(!(d && u));
        if d { downs += 1; }
        if u { ups += 1; }
        assert!(downs == ups || downs == ups + 1);
    }
    assert_eq!(downs, 3);
    assert_eq!(ups, 2);
    assert_eq!(st, Status::Down);
}

#[test]
fn check_status_mapping() {
    assert_eq!(check_status_of(Status::Up), MonitorCheckStatus::Up);
    assert_eq!(check_status_of(Status::Down), MonitorCheckStatus::Down);
    assert_eq!(check_status_of(Status::Unknown), MonitorCheckStatus::Down);
    assert_eq!(status_from_check(MonitorCheckStatus::Up), Status::Up);
    assert_eq!(status_from_check(MonitorCheckStatus::Down), Status::Down);
}

#[test]
fn down_error_text() {
    let mut o = outcome(Status::Down);
    assert_eq!(down_event_error(&o), "");
    o.error = Some("Request failed: timeout".to_string());
    assert_eq!(down_event_error(&o), "Request failed: timeout");
}
