use flatline::channels::{
    build_slack_config, build_telegram_config, channel_type_key, channel_type_label, channel_url,
    is_valid_url, url_preview, UrlPreview,
};
use flatline::dashboard::{calc_p95, calc_streak, monitor_method, monitor_url};
use flatline::forms::{
    add_status_code, parse_edit_id, parse_u16_exec, pop_status_code, remove_status_code,
    validate_monitor_form, MonitorFormErrors,
};
use flatline::live::{incident_opened, incident_resolved, push_recent_check};
use flatline::model::{
    Incident, Monitor, MonitorCheck, MonitorCheckStatus, MonitorConfig, MonitorConfigInput,
    MonitorNotification, NotificationChannel, NotificationChannelConfig,
    NotificationChannelConfigInput,
};
use flatline::notify::IncidentRecord;
use flatline::summary::{
    active_incident, available_channels, average_response_ms, count_up, dashboard_summary,
    status_badge_label,
};

fn check(status: MonitorCheckStatus, ms: u64) -> MonitorCheck {
    MonitorCheck {
        status,
        status_code: Some(200),
        response_time_ms: ms,
        error_message: None,
        checked_at: "2024-01-01T00:00:00Z".to_string(),
    }
}

fn monitor(method: Option<&str>) -> Monitor {
    Monitor {
        id: "abc".into(),
        name: "site".into(),
        enabled: true,
        interval: 60,
        timeout: 10,
        retries: 0,
        config: MonitorConfig::Http {
            url: "https://example.com/health".into(),
            method: method.map(|m| m.to_string()),
            expected_status: vec![200],
        },
    }
}

#[test]
fn url_validation() {
    assert!(is_valid_url("https://a.io"));
    assert!(is_valid_url("  http://x.yz  "));
    assert!(!is_valid_url("http://"));
    assert!(!is_valid_url("https://"));
    assert!(!is_valid_url("http://a"));
    assert!(is_valid_url("http://ab"));
    assert!(!is_valid_url("ftp://example.com"));
    assert!(!is_valid_url(""));
    assert!(is_valid_url("http://é"));
}

#[test]
fn channel_helpers() {
    let t = NotificationChannelConfig::Telegram { url: "https://t.me/x".into(), chat_id: "42".into() };
    assert_eq!(channel_url(&t), "https://t.me/x");
    assert_eq!(channel_type_key(&t), "telegram");
    assert_eq!(channel_type_label(&t), "Telegram");
    let w = NotificationChannelConfig::Webhook { url: "https://hook".into() };
    assert_eq!(channel_type_key(&w), "webhook");
    assert_eq!(channel_type_label(&w), "Webhook");
    let s = NotificationChannelConfig::Slack { url: "https://slack".into() };
    assert_eq!(channel_type_key(&s), "slack");
    let d = NotificationChannelConfig::Discord { url: "https://discord".into() };
    assert_eq!(channel_type_label(&d), "Discord");
    assert_eq!(channel_url(&d), "https://discord");
}

#[test]
fn channel_form_configs() {
    assert_eq!(
        build_slack_config("  https://hooks.slack.com/x "),
        Some(NotificationChannelConfigInput::Slack { webhook_url: "https://hooks.slack.com/x".into() })
    );
    assert_eq!(build_slack_config("nope"), None);
    assert_eq!(
        build_telegram_config("https://api.telegram.org/bot1/sendMessage", " 123 "),
        Some(NotificationChannelConfigInput::Telegram {
            url: "https://api.telegram.org/bot1/sendMessage".into(),
            chat_id: "123".into()
        })
    );
    assert_eq!(build_telegram_config("https://api.telegram.org/x", "   "), None);
}

#[test]
fn url_previews() {
    assert_eq!(url_preview("   "), UrlPreview::Empty);
    assert_eq!(url_preview("https://example.com"), UrlPreview::Valid("example.com".into()));
    assert_eq!(url_preview(" http://example.com "), UrlPreview::Valid("example.com".into()));
    assert_eq!(url_preview("example.com"), UrlPreview::Invalid);
    assert_eq!(
        url_preview("https://https://x.io"),
        "https://https://x.io".trim_start_matches("https://").trim_start_matches("http://").to_string()
            .as_str()
            .pipe_valid()
    );
}

trait PipeValid {
    fn pipe_valid(&self) -> UrlPreview;
}
impl PipeValid for str {
    fn pipe_valid(&self) -> UrlPreview {
        UrlPreview::Valid(self.to_string())
    }
}

#[test]
fn edit_id_parsing() {
    assert_eq!(parse_edit_id("?id=42"), Some("42".into()));
    assert_eq!(parse_edit_id("??a=1&id=xyz&id=2"), Some("xyz".into()));
    assert_eq!(parse_edit_id("?id="), None);
    assert_eq!(parse_edit_id("?id"), None);
    assert_eq!(parse_edit_id("?x=1&id=a=b"), Some("a=b".into()));
    assert_eq!(parse_edit_id(""), None);
    assert_eq!(parse_edit_id("?ids=3&id=&id=7"), Some("7".into()));
}

#[test]
fn u16_parsing_matches_std() {
    for s in ["", "+", "0", "+12", "-1", "65535", "65536", "00099", "1a", " 1", "99999999999"] {
        assert_eq!(parse_u16_exec(s), s.parse::<u16>().ok(), "{s:?}");
    }
}

#[test]
fn status_code_tags() {
    let mut codes = vec![200u16];
    add_status_code(&mut codes, " 404 ");
    assert_eq!(codes, vec![200, 404]);
    add_status_code(&mut codes, "404");
    assert_eq!(codes, vec![200, 404]);
    add_status_code(&mut codes, "99");
    add_status_code(&mut codes, "600");
    add_status_code(&mut codes, "abc");
    assert_eq!(codes, vec![200, 404]);
    add_status_code(&mut codes, "+301");
    assert_eq!(codes, vec![200, 404, 301]);
    remove_status_code(&mut codes, 404);
    assert_eq!(codes, vec![200, 301]);
    pop_status_code(&mut codes);
    assert_eq!(codes, vec![200]);
    pop_status_code(&mut codes);
    pop_status_code(&mut codes);
    assert!(codes.is_empty());
}

#[test]
fn monitor_form_validation() {
    let ok = validate_monitor_form(" api ", " https://x.io ", "POST", &vec![200, 201], 60, 10, 3, true);
    assert_eq!(
        ok,
        Ok(flatline::model::MonitorFormData {
            name: "api".into(),
            interval: 60,
            timeout: 10,
            retries: 3,
            enabled: true,
            config: MonitorConfigInput::Http {
                url: "https://x.io".into(),
                method: "POST".into(),
                expected_status: vec![200, 201]
            },
        })
    );
    let bad = validate_monitor_form("  ", "x", "GET", &vec![], 5, 0, 11, false);
    assert_eq!(
        bad,
        Err(MonitorFormErrors { name: true, url: true, interval: true, timeout: true, retries: true })
    );
    let edge = validate_monitor_form("n", "http://ab", "GET", &vec![], 86400, 300, 10, true);
    assert!(edge.is_ok());
    let over = validate_monitor_form("n", "http://ab", "GET", &vec![], 86401, 301, 10, true);
    assert_eq!(
        over,
        Err(MonitorFormErrors { name: false, url: false, interval: true, timeout: true, retries: false })
    );
}

#[test]
fn monitor_helpers() {
    assert_eq!(monitor_url(&monitor(None)), "https://example.com/health");
    assert_eq!(monitor_method(&monitor(None)), "GET");
    assert_eq!(monitor_method(&monitor(Some("HEAD"))), "HEAD");
}

#[test]
fn streaks() {
    assert_eq!(calc_streak(&[]), 0);
    assert_eq!(calc_streak(&[check(MonitorCheckStatus::Up, 1), check(MonitorCheckStatus::Up, 2), check(MonitorCheckStatus::Down, 3), check(MonitorCheckStatus::Up, 4)]), 2);
    assert_eq!(calc_streak(&[check(MonitorCheckStatus::Down, 1)]), 1);
}

fn float_p95(times: &[u64]) -> Option<u64> {
    if times.is_empty() {
        return None;
    }
    let mut t = times.to_vec();
    t.sort_unstable();
    let idx = ((t.len() as f64 * 0.95) as usize).min(t.len() - 1);
    Some(t[idx])
}

#[test]
fn p95_matches_sorted_float_index() {
    let mut x: u64 = 12345;
    for n in 0..260usize {
        let mut checks = Vec::new();
        let mut times = Vec::new();
        for _ in 0..n {
            x = x.wrapping_mul(6364136223846793005).wrapping_add(1442695040888963407);
            let t = (x >> 33) % 50;
            times.push(t);
            checks.push(check(MonitorCheckStatus::Up, t));
        }
        assert_eq!(calc_p95(&checks), float_p95(&times), "n = {n}");
    }
}

#[test]
fn p95_examples() {
    let checks: Vec<MonitorCheck> = (1..=20).rev().map(|t| check(MonitorCheckStatus::Up, t * 10)).collect();
    assert_eq!(calc_p95(&checks), Some(200));
    assert_eq!(calc_p95(&checks[..1]), Some(200));
    assert_eq!(calc_p95(&[]), None);
}

#[test]
fn live_checks_capped_newest_first() {
    let mut list = Vec::new();
    for i in 0..150u64 {
        push_recent_check(&mut list, check(MonitorCheckStatus::Up, i));
    }
    assert_eq!(list.len(), 100);
    assert_eq!(list[0].response_time_ms, 149);
    assert_eq!(list[99].response_time_ms, 50);
}

#[test]
fn live_incidents() {
    let mut list = Vec::new();
    let a = IncidentRecord { id: 1, monitor_id: 9, started_at: 100, resolved_at: None };
    incident_opened(&mut list, a);
    incident_resolved(&mut list, 1, 9, 100, 500);
    assert_eq!(list, vec![IncidentRecord { resolved_at: Some(500), ..a }]);
    incident_resolved(&mut list, 2, 9, 50, 60);
    assert_eq!(list.len(), 2);
    assert_eq!(list[0], IncidentRecord { id: 2, monitor_id: 9, started_at: 50, resolved_at: Some(60) });
}

#[test]
fn summaries() {
    let checks = vec![check(MonitorCheckStatus::Up, 10), check(MonitorCheckStatus::Down, 20), check(MonitorCheckStatus::Up, 30)];
    assert_eq!(count_up(&checks), 2);
    assert_eq!(average_response_ms(&checks), Some(20));
    assert_eq!(average_response_ms(&[]), None);
    assert_eq!(status_badge_label(false, &checks), "Paused");
    assert_eq!(status_badge_label(true, &checks), "Operational");
    assert_eq!(status_badge_label(true, &checks[1..]), "Down");
    assert_eq!(status_badge_label(true, &[]), "Unknown");
    let inc = |r: Option<&str>| Incident { started_at: "s".into(), resolved_at: r.map(|x| x.to_string()) };
    assert_eq!(active_incident(&[inc(Some("e")), inc(None), inc(None)]), Some(1));
    assert_eq!(active_incident(&[inc(Some("e"))]), None);
    let all_checks = vec![vec![check(MonitorCheckStatus::Up, 1)], vec![check(MonitorCheckStatus::Down, 1)], vec![], vec![check(MonitorCheckStatus::Up, 2)]];
    let all_incidents = vec![vec![inc(None)], vec![], vec![inc(Some("x")), inc(None)], vec![]];
    assert_eq!(dashboard_summary(&all_checks, &all_incidents), (2, 1, vec![0, 2]));
}

#[test]
fn available_channel_positions() {
    let ch = |id: &str| NotificationChannel {
        id: id.into(),
        name: id.into(),
        config: NotificationChannelConfig::Webhook { url: "https://h".into() },
        created_at: "t".into(),
    };
    let link = |id: &str| MonitorNotification { id: "l".into(), channel_id: id.into(), on_recovery: true };
    let channels = vec![ch("a"), ch("b"), ch("c")];
    assert_eq!(available_channels(&channels, &vec![link("b")]), vec![0, 2]);
    assert_eq!(available_channels(&channels, &vec![]), vec![0, 1, 2]);
}
