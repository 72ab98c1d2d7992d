use flatline::channels::{build_slack_config, is_valid_url};
use flatline::downtime::{day_downtime_minutes, IncidentWindow, NANOS_PER_DAY};
use flatline::live::{LiveEvent, LiveStats};
use flatline::notify::IncidentRecord;
use flatline::forms::{add_status_code, parse_u16_exec, parse_u32_exec, validate_monitor_form};
use flatline::model::{
    MonitorCheck,
    Monitor, MonitorCheckStatus, MonitorConfig, MonitorConfigInput, NotificationChannelConfig,
    NotificationChannelConfigInput,
};
use flatline::monitor_state::{CheckOutcome, Status, WorkerState};
use flatline::repository::{
    merge_channel_update, merge_monitor_update, ChannelSettings, MonitorSettings,
    UpdateMonitorRequest, UpdateNotificationChannelRequest,
};
use flatline::status_pages::{merge_status_page_update, StatusPageFields, UpdateStatusPageRequest};

fn monitor(retries: u32) -> Monitor {
    Monitor {
        id: "m".into(),
        name: "api".into(),
        enabled: true,
        interval: 60,
        timeout: 10,
        retries,
        config: MonitorConfig::Http { url: "https://example.com".into(), method: None, expected_status: vec![] },
    }
}

fn outcome(status: Status, error: Option<&str>) -> CheckOutcome {
    CheckOutcome { status, status_code: None, response_time_ms: 12, error: error.map(|e| e.to_string()) }
}

#[test]
fn worker_resumes_and_reports_once_per_outage() {
    let m = monitor(1);
    let mut w = WorkerState::resume(Some(MonitorCheckStatus::Up));
    assert_eq!(w.status, Status::Up);
    let d = w.observe(&m, &outcome(Status::Down, Some("Request failed: boom")));
    assert!(!d.went_down && !d.went_up);
    assert_eq!(d.check_status, MonitorCheckStatus::Down);
    let d = w.observe(&m, &outcome(Status::Down, Some("Request failed: boom")));
    assert!(d.went_down && !d.went_up);
    assert_eq!(d.down_error, "Request failed: boom");
    for _ in 0..5 {
        let d = w.observe(&m, &outcome(Status::Unknown, None));
        assert!(!d.went_down && !d.went_up);
        assert_eq!(w.status, Status::Down);
    }
    let d = w.observe(&m, &outcome(Status::Up, None));
    assert!(d.went_up && !d.went_down);
    assert_eq!(d.check_status, MonitorCheckStatus::Up);
    assert_eq!(w.consecutive_failures, 0);
}

#[test]
fn worker_without_history_settles_silently() {
    let m = monitor(0);
    let mut w = WorkerState::resume(None);
    assert_eq!(w, WorkerState::new());
    for _ in 0..4 {
        let d = w.observe(&m, &outcome(Status::Down, None));
        assert!(!d.went_down && !d.went_up);
        assert_ne!(w.status, Status::Up);
    }
    assert_eq!(w.status, Status::Down);
    assert_eq!(w.consecutive_failures, 4);
    assert_eq!(WorkerState::resume(Some(MonitorCheckStatus::Down)).status, Status::Down);
}

#[test]
fn empty_updates_keep_everything_and_updates_are_idempotent() {
    let mon = MonitorSettings {
        name: "api".into(),
        config: MonitorConfig::Http { url: "https://a.example".into(), method: None, expected_status: vec![200] },
        interval: 60,
        timeout: 10,
        enabled: true,
    };
    let empty = UpdateMonitorRequest { name: None, config: None, interval: None, timeout: None, enabled: None };
    assert_eq!(merge_monitor_update(mon.clone(), empty), mon);
    let upd = UpdateMonitorRequest { name: Some("web".into()), config: None, interval: Some(30), timeout: None, enabled: Some(false) };
    let once = merge_monitor_update(mon.clone(), upd.clone());
    assert_eq!(merge_monitor_update(once.clone(), upd), once);

    let ch = ChannelSettings { name: "c".into(), config: NotificationChannelConfig::Discord { url: "https://d".into() } };
    let upd = UpdateNotificationChannelRequest { name: Some("d".into()), config: None };
    let once = merge_channel_update(ch, upd.clone());
    assert_eq!(merge_channel_update(once.clone(), upd), once);

    let page = StatusPageFields { name: "p".into(), description: Some("x".into()), slug: "p".into(), refresh_interval: 60 };
    let empty = UpdateStatusPageRequest { name: None, description: None, slug: None, refresh_interval: None };
    assert_eq!(merge_status_page_update(page.clone(), empty), page);
    let clear = UpdateStatusPageRequest { name: None, description: Some(String::new()), slug: Some("q".into()), refresh_interval: None };
    let once = merge_status_page_update(page, clear.clone());
    assert_eq!(merge_status_page_update(once.clone(), clear), once);
}

#[test]
fn printed_numbers_parse_back() {
    for n in [0u16, 7, 100, 404, 599, 65535] {
        assert_eq!(parse_u16_exec(&n.to_string()), Some(n));
    }
    for n in [0u32, 10, 86400, u32::MAX] {
        assert_eq!(parse_u32_exec(&n.to_string()), Some(n));
    }
    let mut codes = vec![200u16];
    add_status_code(&mut codes, &404u16.to_string());
    add_status_code(&mut codes, &200u16.to_string());
    assert_eq!(codes, vec![200, 404]);
}

#[test]
fn stored_urls_validate_again() {
    let cfg = build_slack_config("  https://hooks.slack.com/services/T/B/X \n").unwrap();
    let NotificationChannelConfigInput::Slack { webhook_url } = cfg else { panic!("not slack") };
    assert_eq!(webhook_url, "https://hooks.slack.com/services/T/B/X");
    assert!(is_valid_url(&webhook_url));
    assert_eq!(webhook_url.trim(), webhook_url);
}

#[test]
fn accepted_form_data_is_accepted_again() {
    let first = validate_monitor_form("  api  ", "\thttps://api.example/health ", "GET", &vec![200], 30, 5, 1, true).unwrap();
    let MonitorConfigInput::Http { url, .. } = first.config.clone();
    let again = validate_monitor_form(&first.name, &url, "GET", &vec![200], 30, 5, 1, true).unwrap();
    assert_eq!(again, first);
    assert_eq!(first.name, "api");
    assert_eq!(url, "https://api.example/health");
}

#[test]
fn one_incident_counts_at_most_a_day() {
    let now: i64 = 20_000 * NANOS_PER_DAY + 3_600_000_000_000;
    let long = vec![IncidentWindow { started_at: now - 10 * NANOS_PER_DAY, resolved_at: None }];
    let days = day_downtime_minutes(&long, now);
    assert!(days.iter().all(|&m| m <= 1440));
    assert_eq!(days[85], 1440);
    assert_eq!(days[89], 60);
}

fn live_check(status: MonitorCheckStatus, ms: u64) -> MonitorCheck {
    MonitorCheck {
        status,
        status_code: Some(200),
        response_time_ms: ms,
        error_message: None,
        checked_at: "2024-01-01T00:00:00Z".into(),
    }
}

#[test]
fn live_stream_keeps_newest_checks_latest_status_and_distinct_incidents() {
    let mut live = LiveStats::new();
    let mut sent: Vec<(u128, u64)> = Vec::new();
    for i in 0..250u64 {
        let monitor_id: u128 = (i % 3) as u128;
        let status = if i % 7 == 0 { MonitorCheckStatus::Down } else { MonitorCheckStatus::Up };
        live.apply(LiveEvent::CheckResult { monitor_id, check: live_check(status, i) });
        sent.push((monitor_id, i));
        if i % 50 == 10 {
            let id: u128 = 1000 + i as u128;
            live.apply(LiveEvent::IncidentOpened { monitor_id, incident_id: id, started_at: i as i64 });
            live.apply(LiveEvent::IncidentResolved {
                monitor_id,
                incident_id: id,
                started_at: i as i64,
                resolved_at: i as i64 + 5,
            });
        }
    }
    for m in 0..3u128 {
        let mine: Vec<u64> = sent.iter().rev().filter(|(id, _)| *id == m).map(|(_, ms)| *ms).take(100).collect();
        let kept: Vec<u64> = live.recent_checks[&m].iter().map(|c| c.response_time_ms).collect();
        assert_eq!(kept, mine);
        assert!(kept.len() <= 100);
        let last = *sent.iter().rev().find(|(id, _)| *id == m).map(|(_, ms)| ms).unwrap();
        assert_eq!(live.latest_response_ms[&m], last);
        let expected = if last % 7 == 0 { MonitorCheckStatus::Down } else { MonitorCheckStatus::Up };
        assert_eq!(live.latest_status[&m], expected);
        if let Some(list) = live.live_incidents.get(&m) {
            for (i, a) in list.iter().enumerate() {
                for b in list.iter().skip(i + 1) {
                    assert_ne!(a.id, b.id);
                }
                assert!(a.resolved_at.is_some());
            }
        }
    }
    // Resolving the same incident twice keeps one entry for it.
    live.apply(LiveEvent::IncidentResolved { monitor_id: 1, incident_id: 1010, started_at: 10, resolved_at: 99 });
    let list = &live.live_incidents[&1];
    assert_eq!(list.iter().filter(|r| r.id == 1010).count(), 1);
    assert_eq!(
        list.iter().find(|r| r.id == 1010),
        Some(&IncidentRecord { id: 1010, monitor_id: 1, started_at: 10, resolved_at: Some(99) })
    );
}
