use flatline::channels::{
    channel_form_init, channel_option_label, config_form_telegram, config_form_url,
    linked_channel_row, recovery_text, submit_channel_form, telegram_field_errors,
    url_field_error, ChannelFormErrors,
};
use flatline::error::{http_status_error, response_error_text};
use flatline::forms::{
    back_href, load_monitor_form, monitor_form_labels, new_monitor_form, number_field_update,
    parse_u32_exec,
};
use flatline::model::{
    Monitor, MonitorCheck, MonitorCheckStatus, MonitorConfig, MonitorNotification,
    NotificationChannel, NotificationChannelConfig, NotificationChannelConfigInput,
    NotificationChannelFormData,
};
use flatline::repository::{latency_from_row, uptime_window};
use flatline::status_views::{
    available_monitors, overall_status, overall_status_label, page_detail_meta, page_list_meta,
    page_monitor_name,
    sanitize_slug, slug_char_for, slug_hint, sparkline_days, submit_status_page_form, OverallStatus,
    StatusPageFormData, StatusPageMonitor,
};
use flatline::summary::{
    active_incidents_label, card_dot, card_response, live_label, monitor_page_actions,
    sparkline_bars, tooltip_code, DotState,
};
use flatline::live::{open_incident, LiveEvent, LiveStats};
use flatline::monitor_state::{monitors_to_start, EngineRegistry};
use flatline::notify::IncidentRecord;
use flatline::routes::{guard_view, is_public, recognize, route_path, GuardView, Route};
use flatline::web::asset_path;

fn channel(id: &str, name: &str, config: NotificationChannelConfig) -> NotificationChannel {
    NotificationChannel {
        id: id.into(),
        name: name.into(),
        config,
        created_at: "2024-05-01T00:00:00Z".into(),
    }
}

fn monitor(id: &str, name: &str, enabled: bool) -> Monitor {
    Monitor {
        id: id.into(),
        name: name.into(),
        enabled,
        interval: 30,
        timeout: 5,
        retries: 2,
        config: MonitorConfig::Http {
            url: "https://example.com".into(),
            method: Some("POST".into()),
            expected_status: vec![200, 204],
        },
    }
}

fn check(status: MonitorCheckStatus, ms: u64) -> MonitorCheck {
    MonitorCheck {
        status,
        status_code: None,
        response_time_ms: ms,
        error_message: None,
        checked_at: "2024-01-01T00:00:00Z".into(),
    }
}

fn link(monitor_id: &str) -> StatusPageMonitor {
    StatusPageMonitor {
        status_page_id: "p".into(),
        monitor_id: monitor_id.into(),
        created_at: "2024-01-01T00:00:00Z".into(),
    }
}

#[test]
fn channel_dialog_starts_from_the_edited_channel() {
    let fresh = channel_form_init(None);
    assert_eq!(fresh.name, "");
    assert_eq!(fresh.type_key, "webhook");
    assert_eq!(fresh.config, None);

    let slack = channel("1", "Ops", NotificationChannelConfig::Slack { url: "https://hooks.slack.com/x".into() });
    let init = channel_form_init(Some(&slack));
    assert_eq!(init.name, "Ops");
    assert_eq!(init.type_key, "slack");
    assert_eq!(
        init.config,
        Some(NotificationChannelConfigInput::Slack { webhook_url: "https://hooks.slack.com/x".into() })
    );

    let tg = channel(
        "2",
        "Chat",
        NotificationChannelConfig::Telegram { url: "https://api.telegram.org/bot1/sendMessage".into(), chat_id: "42".into() },
    );
    let init = channel_form_init(Some(&tg));
    assert_eq!(init.type_key, "telegram");
    assert_eq!(
        init.config,
        Some(NotificationChannelConfigInput::Telegram {
            url: "https://api.telegram.org/bot1/sendMessage".into(),
            chat_id: "42".into()
        })
    );
    let discord = channel("3", "D", NotificationChannelConfig::Discord { url: "https://discord.com/api/webhooks/1".into() });
    assert_eq!(channel_form_init(Some(&discord)).type_key, "discord");
}

#[test]
fn channel_dialog_submission() {
    let cfg = NotificationChannelConfigInput::Webhook { url: "https://example.com/hook".into() };
    assert_eq!(
        submit_channel_form("  Ops team ", Some(cfg.clone())),
        Ok(NotificationChannelFormData { name: "Ops team".into(), config: cfg.clone() })
    );
    assert_eq!(
        submit_channel_form("   ", Some(cfg.clone())),
        Err(ChannelFormErrors { name: true, config: false })
    );
    assert_eq!(submit_channel_form("Ops", None), Err(ChannelFormErrors { name: false, config: true }));
    assert_eq!(submit_channel_form("", None), Err(ChannelFormErrors { name: true, config: true }));
}

#[test]
fn channel_subform_fields() {
    let slack = Some(NotificationChannelConfigInput::Slack { webhook_url: "https://s.example".into() });
    let tg = Some(NotificationChannelConfigInput::Telegram { url: "https://t.example".into(), chat_id: "7".into() });
    assert_eq!(config_form_url(&slack), "https://s.example");
    assert_eq!(config_form_url(&tg), "");
    assert_eq!(config_form_url(&None), "");
    assert_eq!(
        config_form_url(&Some(NotificationChannelConfigInput::Discord { url: "https://d.example".into() })),
        "https://d.example"
    );
    assert_eq!(config_form_telegram(&tg), ("https://t.example".to_string(), "7".to_string()));
    assert_eq!(config_form_telegram(&slack), (String::new(), String::new()));
    assert_eq!(telegram_field_errors(false, "bad", ""), (false, false));
    assert_eq!(telegram_field_errors(true, "bad", "  "), (true, true));
    assert_eq!(telegram_field_errors(true, "https://t.example", "1"), (false, false));
    assert!(url_field_error(true, "ftp://x"));
    assert!(!url_field_error(true, " https://hooks.example "));
    assert!(!url_field_error(false, "ftp://x"));
}

#[test]
fn linked_channel_rows() {
    let channels = vec![
        channel("a", "Alerts", NotificationChannelConfig::Slack { url: "https://s".into() }),
        channel("b", "Hook", NotificationChannelConfig::Webhook { url: "https://w".into() }),
        channel("c", "Chat", NotificationChannelConfig::Telegram { url: "https://t".into(), chat_id: "1".into() }),
    ];
    let n = |id: &str, rec: bool| MonitorNotification { id: "n".into(), channel_id: id.into(), on_recovery: rec };
    let row = linked_channel_row(&n("a", true), &channels);
    assert_eq!((row.name.as_str(), row.type_label, row.on_recovery), ("Alerts", "Slack", true));
    let row = linked_channel_row(&n("c", false), &channels);
    assert_eq!((row.name.as_str(), row.type_label, row.on_recovery), ("Chat", "Webhook", false));
    let row = linked_channel_row(&n("zz", true), &channels);
    assert_eq!((row.name.as_str(), row.type_label), ("Unknown", "Webhook"));
    assert_eq!(recovery_text(true), "✓ recovery");
    assert_eq!(recovery_text(false), "– recovery");
    assert_eq!(channel_option_label(&channels[0]), "Alerts (Slack)");
    assert_eq!(channel_option_label(&channels[2]), "Chat (Telegram)");
}

#[test]
fn slug_field_sanitizes_input() {
    for raw in ["My Page!", "ÄBC déf", "ok_slug-1", "", "ΣΑΣ", "a b\tc", "İx"] {
        let expected: String = raw
            .to_lowercase()
            .chars()
            .filter_map(|c| {
                if c == ' ' {
                    Some('-')
                } else if c.is_alphanumeric() || c == '-' || c == '_' {
                    Some(c)
                } else {
                    None
                }
            })
            .collect();
        assert_eq!(sanitize_slug(raw), expected, "{raw:?}");
    }
    assert_eq!(sanitize_slug("My Page!"), "my-page");
    assert_eq!(sanitize_slug("a b\tc"), "a-bc");
    assert_eq!(sanitize_slug("Ops / API"), "ops--api");
    assert_eq!(sanitize_slug("Status_2024"), "status_2024");
}

#[test]
fn status_page_form() {
    assert_eq!(
        submit_status_page_form("Main".into(), "".into(), "main".into(), 30),
        Ok(StatusPageFormData { name: "Main".into(), description: "".into(), slug: "main".into(), refresh_interval: 30 })
    );
    assert_eq!(
        submit_status_page_form("".into(), "d".into(), "main".into(), 30),
        Err("Name and slug are required.".to_string())
    );
    assert_eq!(
        submit_status_page_form("Main".into(), "d".into(), "".into(), 30),
        Err("Name and slug are required.".to_string())
    );
    assert_eq!(slug_hint(""), "The public URL will be /s/<slug>");
    assert_eq!(slug_hint("main"), "Public URL: /s/main");
}

#[test]
fn status_page_monitor_lists() {
    let monitors = vec![monitor("m1", "API", true), monitor("m2", "Web", true), monitor("m3", "DB", false)];
    assert_eq!(page_monitor_name(&link("m2"), &monitors), "Web");
    assert_eq!(page_monitor_name(&link("gone"), &monitors), "gone");
    assert_eq!(available_monitors(&monitors, &vec![link("m2")]), vec![0, 2]);
    assert_eq!(available_monitors(&monitors, &vec![]), vec![0, 1, 2]);
    assert_eq!(available_monitors(&monitors, &vec![link("m1"), link("m2"), link("m3")]), Vec::<usize>::new());
}

#[test]
fn public_page_overall_status() {
    assert_eq!(overall_status(&vec![]), OverallStatus::AllOperational);
    assert_eq!(overall_status(&vec![true, true]), OverallStatus::AllOperational);
    assert_eq!(overall_status(&vec![true, false]), OverallStatus::PartialOutage);
    assert_eq!(overall_status(&vec![false, false]), OverallStatus::MajorOutage);
    assert_eq!(overall_status_label(OverallStatus::AllOperational), "All Systems Operational");
    assert_eq!(overall_status_label(OverallStatus::PartialOutage), "Partial Outage");
    assert_eq!(overall_status_label(OverallStatus::MajorOutage), "Major Outage");
    assert_eq!(sparkline_days(&vec![]), vec![u32::MAX; 90]);
    assert_eq!(sparkline_days(&vec![0, 5, 61]), vec![0, 5, 61]);
}

#[test]
fn monitor_card_status_and_response() {
    let checks = vec![check(MonitorCheckStatus::Down, 300), check(MonitorCheckStatus::Up, 100)];
    assert_eq!(card_dot(false, Some(MonitorCheckStatus::Up), &checks), DotState::Unknown);
    assert_eq!(card_dot(true, Some(MonitorCheckStatus::Up), &checks), DotState::Up);
    assert_eq!(card_dot(true, None, &checks), DotState::Down);
    assert_eq!(card_dot(true, None, &[]), DotState::Unknown);
    assert_eq!(card_response(Some(42), &checks), (Some(42), "p50 30d"));
    assert_eq!(card_response(None, &checks), (Some(200), "avg resp."));
    assert_eq!(card_response(None, &[]), (None, "avg resp."));
}

#[test]
fn dashboard_labels() {
    assert_eq!(live_label(0), "Live · 0 monitors");
    assert_eq!(live_label(1), "Live · 1 monitor");
    assert_eq!(live_label(12), "Live · 12 monitors");
    assert_eq!(active_incidents_label(1), "1 active incident");
    assert_eq!(active_incidents_label(3), "3 active incidents");
    let (label, href) = monitor_page_actions(&monitor("m9", "API", true));
    assert_eq!((label, href.as_str()), ("Pause", "/create?id=m9"));
    assert_eq!(monitor_page_actions(&monitor("m9", "API", false)).0, "Resume");
}

#[test]
fn number_fields_parse_like_std() {
    for s in ["0", "42", "+7", "4294967295", "4294967296", "", "+", "-1", " 5", "12a", "007", "99999999999"] {
        assert_eq!(parse_u32_exec(s), s.parse::<u32>().ok(), "{s:?}");
    }
    assert_eq!(number_field_update(60, "120"), 120);
    assert_eq!(number_field_update(60, "12x"), 60);
    assert_eq!(number_field_update(60, ""), 60);
}

#[test]
fn monitor_form_loading() {
    let blank = new_monitor_form();
    assert_eq!((blank.method.as_str(), blank.interval, blank.timeout_secs, blank.retries, blank.enabled), ("GET", 60, 10, 0, true));
    assert!(blank.status_codes.is_empty() && blank.name.is_empty() && blank.url.is_empty());
    let f = load_monitor_form(&monitor("m1", "API", false));
    assert_eq!(f.name, "API");
    assert_eq!(f.url, "https://example.com");
    assert_eq!(f.method, "POST");
    assert_eq!(f.status_codes, vec![200, 204]);
    assert_eq!((f.interval, f.timeout_secs, f.retries, f.enabled), (30, 5, 2, false));
    let mut m = monitor("m1", "API", true);
    m.config = MonitorConfig::Http { url: "https://x.example".into(), method: None, expected_status: vec![] };
    let f = load_monitor_form(&m);
    assert_eq!(f.method, "GET");
    assert!(f.status_codes.is_empty());
    assert_eq!(back_href(Some("m1")), "/monitors/m1");
    assert_eq!(back_href(None), "/");
    assert_eq!(monitor_form_labels(true).0, "Edit monitor");
    assert_eq!(monitor_form_labels(false).2, "Save monitor");
}

#[test]
fn client_error_texts() {
    assert_eq!(http_status_error(404), "HTTP 404");
    assert_eq!(response_error_text(500, None), "HTTP 500");
    assert_eq!(response_error_text(400, Some("bad slug".into())), "bad slug");
}

#[test]
fn static_asset_paths() {
    assert_eq!(asset_path("/"), "index.html");
    assert_eq!(asset_path(""), "index.html");
    assert_eq!(asset_path("///"), "index.html");
    assert_eq!(asset_path("/assets/app.js"), "assets/app.js");
    assert_eq!(asset_path("//x/y"), "x/y");
}

#[test]
fn stats_rows() {
    assert_eq!(latency_from_row(Some(120), Some(480)), Some((120, 480)));
    assert_eq!(latency_from_row(None, Some(480)), None);
    assert_eq!(latency_from_row(Some(1), None), None);
    assert_eq!(uptime_window(0, 10), None);
    assert_eq!(uptime_window(-5, 10), None);
    assert_eq!(uptime_window(3600, 60), Some(60));
    assert_eq!(uptime_window(3600, -3), Some(0));
}

#[test]
fn engine_starts_enabled_monitors_only() {
    let monitors = vec![monitor("a", "A", true), monitor("b", "B", false), monitor("c", "C", true)];
    assert_eq!(monitors_to_start(&monitors), vec![0, 2]);
    assert_eq!(monitors_to_start(&vec![]), Vec::<usize>::new());
}

#[test]
fn first_open_incident() {
    let closed = IncidentRecord { id: 1, monitor_id: 9, started_at: 10, resolved_at: Some(20) };
    let open_a = IncidentRecord { id: 2, monitor_id: 9, started_at: 30, resolved_at: None };
    let open_b = IncidentRecord { id: 3, monitor_id: 9, started_at: 40, resolved_at: None };
    assert_eq!(open_incident(&vec![closed, open_a, open_b]), Some(open_a));
    assert_eq!(open_incident(&vec![closed]), None);
    assert_eq!(open_incident(&vec![]), None);
}

#[test]
fn card_sparkline_bars() {
    // Newest first: the bars run oldest first.
    let checks = vec![
        check(MonitorCheckStatus::Up, 90),
        check(MonitorCheckStatus::Down, 10),
        check(MonitorCheckStatus::Up, 5000),
        check(MonitorCheckStatus::Up, 2399),
        check(MonitorCheckStatus::Up, 0),
    ];
    assert_eq!(
        sparkline_bars(&checks),
        vec![(true, 100), (true, 21), (true, 20), (false, 15), (true, 97)]
    );
    let many: Vec<MonitorCheck> = (0..40).map(|i| check(MonitorCheckStatus::Up, i * 30)).collect();
    let bars = sparkline_bars(&many);
    assert_eq!(bars.len(), 30);
    assert_eq!(bars[0], (true, 61));
    assert_eq!(bars[29], (true, 90));
    for c in &many {
        let h = (100u64.saturating_sub(c.response_time_ms / 30)).clamp(20, 100);
        assert!(bars.iter().any(|b| b.1 == h) || c.response_time_ms < 300);
    }
    assert_eq!(sparkline_bars(&[]), vec![]);
    assert_eq!(tooltip_code(Some(503)), "HTTP 503");
    assert_eq!(tooltip_code(None), "no response");
}

#[test]
fn slug_characters() {
    assert_eq!(slug_char_for('a', true), Some('a'));
    assert_eq!(slug_char_for('é', true), Some('é'));
    assert_eq!(slug_char_for('-', false), Some('-'));
    assert_eq!(slug_char_for('_', false), Some('_'));
    assert_eq!(slug_char_for(' ', false), Some('-'));
    assert_eq!(slug_char_for('!', false), None);
}

#[test]
fn route_table() {
    let cases: Vec<(&str, Route)> = vec![
        ("/", Route::Monitors),
        ("/monitors/abc", Route::MonitorDetail { id: "abc".into() }),
        ("/create", Route::Create),
        ("/notifications", Route::Notifications),
        ("/status-pages", Route::StatusPages),
        ("/status-pages/create", Route::CreateStatusPage),
        ("/status-pages/p1/edit", Route::StatusPageEdit { id: "p1".into() }),
        ("/status-pages/create/edit", Route::StatusPageEdit { id: "create".into() }),
        ("/status-pages/p1", Route::StatusPageDetail { id: "p1".into() }),
        ("/s/main", Route::PublicStatus { slug: "main".into() }),
        ("/404", Route::NotFound),
        ("/monitors/", Route::NotFound),
        ("/monitors/a/b", Route::NotFound),
        ("/s/", Route::NotFound),
        ("/nowhere", Route::NotFound),
        ("", Route::NotFound),
    ];
    for (path, route) in cases {
        assert_eq!(recognize(path), route, "{path:?}");
    }
    for r in [
        Route::Monitors,
        Route::MonitorDetail { id: "m-1".into() },
        Route::Create,
        Route::Notifications,
        Route::StatusPages,
        Route::CreateStatusPage,
        Route::StatusPageEdit { id: "p".into() },
        Route::StatusPageDetail { id: "p".into() },
        Route::PublicStatus { slug: "status".into() },
        Route::NotFound,
    ] {
        assert_eq!(recognize(&route_path(&r)), r);
    }
    assert_eq!(route_path(&Route::StatusPageEdit { id: "p".into() }), "/status-pages/p/edit");
    // The one parameter that does not come back: it names the creation page.
    assert_eq!(
        recognize(&route_path(&Route::StatusPageDetail { id: "create".into() })),
        Route::CreateStatusPage
    );
    assert!(is_public(&Route::PublicStatus { slug: "x".into() }));
    assert!(!is_public(&Route::Monitors));
    assert_eq!(guard_view(Route::Monitors, None), GuardView::Pending);
    assert_eq!(guard_view(Route::Monitors, Some(true)), GuardView::Page(Route::Monitors));
    assert_eq!(guard_view(Route::Create, Some(false)), GuardView::Login);
    let public = Route::PublicStatus { slug: "x".into() };
    assert_eq!(guard_view(public.clone(), None), GuardView::Page(public.clone()));
    assert_eq!(guard_view(public.clone(), Some(false)), GuardView::Page(public));
}

#[test]
fn live_stream_updates_per_monitor() {
    let mut live = LiveStats::new();
    assert!(!live.connected);
    live.mark_connected();
    assert!(live.connected);
    for i in 0..105u64 {
        live.apply(LiveEvent::CheckResult { monitor_id: 1, check: check(MonitorCheckStatus::Up, i) });
    }
    live.apply(LiveEvent::CheckResult { monitor_id: 2, check: check(MonitorCheckStatus::Down, 7) });
    assert_eq!(live.recent_checks[&1].len(), 100);
    assert_eq!(live.recent_checks[&1][0].response_time_ms, 104);
    assert_eq!(live.recent_checks[&1][99].response_time_ms, 5);
    assert_eq!(live.recent_checks[&2].len(), 1);
    assert_eq!(live.latest_status[&1], MonitorCheckStatus::Up);
    assert_eq!(live.latest_status[&2], MonitorCheckStatus::Down);
    assert_eq!(live.latest_response_ms[&2], 7);

    live.apply(LiveEvent::IncidentOpened { monitor_id: 2, incident_id: 50, started_at: 1000 });
    live.apply(LiveEvent::IncidentResolved { monitor_id: 2, incident_id: 50, started_at: 1000, resolved_at: 2000 });
    assert_eq!(
        live.live_incidents[&2],
        vec![IncidentRecord { id: 50, monitor_id: 2, started_at: 1000, resolved_at: Some(2000) }]
    );
    // A resolution seen without its opening is recorded, already resolved.
    live.apply(LiveEvent::IncidentResolved { monitor_id: 3, incident_id: 60, started_at: 10, resolved_at: 20 });
    assert_eq!(
        live.live_incidents[&3],
        vec![IncidentRecord { id: 60, monitor_id: 3, started_at: 10, resolved_at: Some(20) }]
    );
    assert!(!live.live_incidents.contains_key(&1));
    assert!(live.connected);
}

#[test]
fn engine_registry_starts_stops_and_restarts() {
    let mut reg = EngineRegistry::new();
    assert!(!reg.is_running(1));
    assert!(reg.start_monitor(1, true));
    assert!(!reg.start_monitor(2, false));
    assert!(reg.is_running(1) && !reg.is_running(2));
    assert_eq!(reg.restart_monitor(1, true), (true, true));
    assert!(reg.is_running(1));
    assert_eq!(reg.restart_monitor(1, false), (true, false));
    assert!(!reg.is_running(1));
    assert_eq!(reg.restart_monitor(2, true), (false, true));
    assert!(reg.is_running(2));
    assert!(reg.stop_monitor(2));
    assert!(!reg.stop_monitor(2));
    assert!(!reg.is_running(2));
}

#[test]
fn status_page_meta_lines() {
    assert_eq!(
        page_list_meta("status", 60, "Jan 1, 2024"),
        "/status \u{b7} refresh every 60s \u{b7} added Jan 1, 2024"
    );
    assert_eq!(page_list_meta("", 0, ""), "/ \u{b7} refresh every 0s \u{b7} added ");
    assert_eq!(
        page_detail_meta("main", 300, "Feb 2, 2025"),
        "Public URL: /s/main  \u{b7}  refresh every 300s  \u{b7}  created Feb 2, 2025"
    );
}
