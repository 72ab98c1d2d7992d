use flatline::auth::{
    bearer_token, check_flow_state, clear_flow_cookie, clear_session_cookie, expiry, find_cookie,
    flow_cookie, flow_token, registration_allowed, session_cookie, session_subject, session_token,
    user_id_from_parsed, user_id_from_sub,
};
use flatline::checks::{
    check_method, check_plan, classify_response, expected_status_or_default, http_method_from_name,
    webhook_method, HttpMethod,
};
use flatline::config::{config_from_vars, ConfigVars};
use flatline::downtime::{all_resolved, day_downtime_minutes, IncidentWindow, NANOS_PER_DAY};
use flatline::error::{ApiError, ErrorBody};
use flatline::model::{
    Monitor, MonitorCheckStatus, MonitorConfig, MonitorNotification, NotificationChannel,
    NotificationChannelConfig,
};
use flatline::monitor_state::Status;
use flatline::notify::{
    chat_message_text, discord_embed, down_chat_text, down_embed, notifier_for,
    notifiers_for_links, recovered_chat_text, recovered_embed, telegram_message, IncidentRecord,
    NotificationEvent, NotifierTarget, DOWN_COLOR, RECOVERED_COLOR,
};
use flatline::repository::{
    check_status_text, clamp_limit, default_checks_limit, default_incidents_limit,
    merge_channel_update, merge_monitor_update, new_monitor_settings, on_recovery_or_default,
    parse_check_status, ChannelSettings, CreateMonitorRequest, MonitorSettings,
    UpdateMonitorRequest, UpdateNotificationChannelRequest,
};
use flatline::store::{
    link_removed, link_write_error, not_found, page_monitor_removed, page_monitor_write_error,
    slug_not_found, status_page_write_error, user_not_found, Entity, WriteFailure,
};
use flatline::status_pages::{
    merge_status_page_update, new_status_page_fields, validate_slug, validate_update_slug,
    CreateStatusPageRequest, StatusPageFields, UpdateStatusPageRequest,
};

const SEC: i64 = 1_000_000_000;

fn day(d: i64) -> i64 {
    d * NANOS_PER_DAY
}

#[test]
fn downtime_per_day() {
    let now = day(20_000) + 12 * 3600 * SEC;
    let incidents = vec![
        // 30 minutes on the day before yesterday
        IncidentWindow { started_at: day(19_998) + 3600 * SEC, resolved_at: Some(day(19_998) + 5400 * SEC) },
        // across midnight into today: 30 min yesterday, 60 min today
        IncidentWindow { started_at: day(20_000) - 1800 * SEC, resolved_at: Some(day(20_000) + 3600 * SEC) },
        // still open since 11:00 today: 60 minutes until now
        IncidentWindow { started_at: day(20_000) + 11 * 3600 * SEC, resolved_at: None },
        // long ago
        IncidentWindow { started_at: day(10_000), resolved_at: Some(day(10_001)) },
    ];
    let r = day_downtime_minutes(&incidents, now);
    assert_eq!(r.len(), 90);
    assert_eq!(r[89], 120);
    assert_eq!(r[88], 30);
    assert_eq!(r[87], 30);
    assert_eq!(r.iter().sum::<u32>(), 180);
    assert!(!all_resolved(&incidents));
    assert!(all_resolved(&incidents[..2].to_vec()));
}

#[test]
fn downtime_before_epoch_and_partial_minutes() {
    let now = -5 * SEC; // just before 1970
    let incidents = vec![IncidentWindow { started_at: -(119 * SEC) - SEC / 2, resolved_at: None }];
    let r = day_downtime_minutes(&incidents, now);
    // 114.5 seconds -> 114 whole seconds -> 1 minute, on the day before the epoch
    assert_eq!(r[89], 1);
    let whole_day = vec![IncidentWindow { started_at: day(-3), resolved_at: Some(day(-1)) }];
    let r2 = day_downtime_minutes(&whole_day, now);
    assert_eq!(r2[88], 1440);
    assert_eq!(r2[87], 1440);
    assert_eq!(r2[89], 0);
}

#[test]
fn api_error_responses() {
    assert_eq!(ApiError::Unauthorized.into_response(), (401, ErrorBody { error: "Unauthorized".into() }));
    assert_eq!(ApiError::NotFound("x".into()).into_response(), (404, ErrorBody { error: "x".into() }));
    assert_eq!(ApiError::BadRequest("b".into()).into_response().0, 400);
    assert_eq!(ApiError::Forbidden("f".into()).into_response().0, 403);
    assert_eq!(ApiError::InternalServerError("i".into()).into_response().0, 500);
    assert_eq!(ApiError::NotFound("m".into()).message(), "Not found: m");
    assert_eq!(ApiError::BadRequest("m".into()).message(), "Bad request: m");
    assert_eq!(ApiError::InternalServerError("m".into()).message(), "Internal server error: m");
    assert_eq!(ApiError::Forbidden("m".into()).message(), "Forbidden: m");
    assert_eq!(ApiError::Unauthorized.message(), "Unauthorized");
}

#[test]
fn slugs() {
    assert_eq!(validate_slug("my-page_1"), Ok(()));
    assert_eq!(validate_slug("9lives"), Ok(()));
    let len_msg = ApiError::BadRequest("Slug must be between 1 and 100 characters".into());
    let chr_msg = ApiError::BadRequest("Slug may only contain lowercase letters, digits, hyphens, and underscores, and must start with a letter or digit".into());
    assert_eq!(validate_slug(""), Err(len_msg.clone()));
    assert_eq!(validate_slug(&"a".repeat(100)), Ok(()));
    assert_eq!(validate_slug(&"a".repeat(101)), Err(len_msg.clone()));
    assert_eq!(validate_slug(&"é".repeat(51)), Err(len_msg));
    assert_eq!(validate_slug("-abc"), Err(chr_msg.clone()));
    assert_eq!(validate_slug("Abc"), Err(chr_msg.clone()));
    assert_eq!(validate_slug("ab c"), Err(chr_msg));
}

#[test]
fn status_page_updates() {
    let existing = StatusPageFields { name: "n".into(), description: Some("d".into()), slug: "s".into(), refresh_interval: 30 };
    let none = UpdateStatusPageRequest { name: None, description: None, slug: None, refresh_interval: None };
    assert_eq!(merge_status_page_update(existing.clone(), none.clone()), existing);
    let clear = UpdateStatusPageRequest { description: Some(String::new()), ..none.clone() };
    assert_eq!(merge_status_page_update(existing.clone(), clear).description, None);
    let set = UpdateStatusPageRequest { name: Some("m".into()), description: Some("e".into()), slug: Some("t".into()), refresh_interval: Some(5) };
    assert_eq!(
        merge_status_page_update(existing, set),
        StatusPageFields { name: "m".into(), description: Some("e".into()), slug: "t".into(), refresh_interval: 5 }
    );
    let created = new_status_page_fields(CreateStatusPageRequest { name: "a".into(), description: None, slug: "a".into(), refresh_interval: None });
    assert_eq!(created.refresh_interval, 60);
    assert_eq!(validate_update_slug(&none), Ok(()));
    assert!(validate_update_slug(&UpdateStatusPageRequest { slug: Some("BAD".into()), ..none }).is_err());
}

fn http(url: &str) -> MonitorConfig {
    MonitorConfig::Http { url: url.into(), method: None, expected_status: vec![] }
}

#[test]
fn repository_rules() {
    assert_eq!(default_checks_limit(), 25);
    assert_eq!(default_incidents_limit(), 25);
    assert_eq!(clamp_limit(500), 100);
    assert_eq!(clamp_limit(7), 7);
    assert_eq!(clamp_limit(-1), 0);
    assert_eq!(clamp_limit(i64::MIN), 0);
    assert_eq!(clamp_limit(100), 100);
    assert_eq!(clamp_limit(0), 0);
    assert!(on_recovery_or_default(None));
    assert!(!on_recovery_or_default(Some(false)));
    let s = new_monitor_settings(CreateMonitorRequest { name: "a".into(), config: http("https://a"), interval: 60, timeout: 5, enabled: None });
    assert!(s.enabled);
    let merged = merge_monitor_update(
        s.clone(),
        UpdateMonitorRequest { name: None, config: Some(http("https://b")), interval: Some(30), timeout: None, enabled: Some(false) },
    );
    assert_eq!(merged, MonitorSettings { name: "a".into(), config: http("https://b"), interval: 30, timeout: 5, enabled: false });
    let ch = ChannelSettings { name: "c".into(), config: NotificationChannelConfig::Slack { url: "https://s".into() } };
    assert_eq!(merge_channel_update(ch.clone(), UpdateNotificationChannelRequest { name: None, config: None }), ch);
    assert_eq!(check_status_text(MonitorCheckStatus::Up), "up");
    assert_eq!(check_status_text(MonitorCheckStatus::Down), "down");
    assert_eq!(parse_check_status("up"), Ok(MonitorCheckStatus::Up));
    assert_eq!(parse_check_status("down"), Ok(MonitorCheckStatus::Down));
    assert_eq!(parse_check_status("UP"), Err(ApiError::InternalServerError("unknown status: UP".into())));
}

#[test]
fn uuids() {
    let id: u128 = 0x550e8400_e29b_41d4_a716_446655440000;
    assert_eq!(user_id_from_sub("550e8400-e29b-41d4-a716-446655440000"), Ok(id));
    assert_eq!(user_id_from_sub("550E8400E29B41D4A716446655440000"), Ok(id));
    assert_eq!(user_id_from_sub("not-a-uuid"), Err(ApiError::Unauthorized));
    assert_eq!(session_subject(id), "550e8400-e29b-41d4-a716-446655440000");
    assert_eq!(user_id_from_sub(&session_subject(42)), Ok(42));
    assert_eq!(user_id_from_sub("nope"), Err(ApiError::Unauthorized));
}

#[test]
fn cookies_and_tokens() {
    assert_eq!(find_cookie("a=1; session=abc; b=2", "session="), Some("abc".into()));
    assert_eq!(find_cookie("a=1;session=", "session="), Some("".into()));
    assert_eq!(find_cookie("a=1", "session="), None);
    assert_eq!(find_cookie("", "session="), None);
    assert_eq!(bearer_token("Bearer tok"), Some("tok".into()));
    assert_eq!(bearer_token("bearer tok"), None);
    assert_eq!(session_token(Some("Bearer x"), Some("session=y")), Ok("x".into()));
    assert_eq!(session_token(Some("Basic x"), Some("session=y")), Ok("y".into()));
    assert_eq!(session_token(None, None), Err(ApiError::Unauthorized));
    assert_eq!(session_token(None, Some("other=1")), Err(ApiError::Unauthorized));
    let jwt = "eyJ.eyJ.sig";
    let sc = session_cookie(jwt);
    assert_eq!(sc, format!("session={jwt}; HttpOnly; Path=/; SameSite=Lax; Max-Age=2592000"));
    assert_eq!(session_token(None, Some(&sc)), Ok(jwt.into()));
    let fc = flow_cookie(jwt);
    assert_eq!(fc, format!("oidc_flow={jwt}; HttpOnly; Path=/; SameSite=Lax; Max-Age=600"));
    assert_eq!(flow_token(Some(&fc)), Ok(jwt.into()));
    assert_eq!(flow_token(None), Err(ApiError::BadRequest("invalid or expired state".into())));
    assert_eq!(clear_flow_cookie(), "oidc_flow=; HttpOnly; Path=/; Max-Age=0");
    assert_eq!(clear_session_cookie(), "session=; HttpOnly; Path=/; Max-Age=0");
    assert_eq!(check_flow_state("a", "a"), Ok(()));
    assert_eq!(check_flow_state("a", "b"), Err(ApiError::BadRequest("invalid or expired state".into())));
    assert_eq!(registration_allowed(0), Ok(()));
    assert_eq!(registration_allowed(1), Err(ApiError::Forbidden("registration is closed".into())));
    assert_eq!(expiry(1_700_000_000, 600), 1_700_000_600);
}

fn mon() -> Monitor {
    Monitor { id: "1".into(), name: "api".into(), enabled: true, interval: 60, timeout: 10, retries: 0, config: http("https://a") }
}

#[test]
fn notification_messages() {
    let at = 1_704_067_200 * SEC + 500;
    let down = NotificationEvent::MonitorDown { monitor: mon(), checked_at: at, error: "boom".into() };
    let dt = chrono::DateTime::from_timestamp_nanos(at);
    assert_eq!(chat_message_text(&down), format!("🚨 Monitor *api* is down as of {}. Error: boom", dt));
    let id: u128 = 7;
    let inc = IncidentRecord { id, monitor_id: 1, started_at: 0, resolved_at: None };
    let up = NotificationEvent::MonitorRecovered { monitor: mon(), incident: inc };
    assert_eq!(
        chat_message_text(&up),
        format!("✅ Monitor *api* has recovered. Incident ID: {}", uuid::Uuid::from_u128(id))
    );
    let tg = telegram_message("99", &down);
    assert_eq!(tg.chat_id, "99");
    assert!(tg.disable_notification);
    let e = discord_embed(&down, 0);
    assert_eq!(e.title, "🚨 Monitor *api* is down");
    assert_eq!(e.description, format!("Checked at: {}\nError: boom", dt));
    assert_eq!(e.color, 15158332);
    assert_eq!(e.timestamp, dt.to_rfc3339());
    let now = 1_800_000_000 * SEC;
    let e2 = discord_embed(&up, now);
    assert_eq!(e2.title, "✅ Monitor *api* has recovered");
    assert_eq!(e2.description, format!("Incident ID: {}", uuid::Uuid::from_u128(id)));
    assert_eq!(e2.color, 5763719);
    assert_eq!(e2.timestamp, chrono::DateTime::from_timestamp_nanos(now).to_rfc3339());
    assert_eq!(
        notifier_for(&NotificationChannelConfig::Webhook { url: "https://w".into() }),
        NotifierTarget::Webhook { url: "https://w".into(), method: HttpMethod::Post }
    );
    assert_eq!(
        notifier_for(&NotificationChannelConfig::Telegram { url: "u".into(), chat_id: "c".into() }),
        NotifierTarget::Telegram { url: "u".into(), chat_id: "c".into() }
    );
}

#[test]
fn http_check_classification() {
    assert_eq!(check_method(None), HttpMethod::Get);
    assert_eq!(check_method(Some(HttpMethod::Head)), HttpMethod::Head);
    assert_eq!(webhook_method(None), HttpMethod::Post);
    assert_eq!(expected_status_or_default(None), Vec::<u16>::new());
    assert_eq!(expected_status_or_default(Some(vec![204])), vec![204]);
    let exp = vec![200, 204];
    let up = classify_response(&exp, Ok(204), 12);
    assert_eq!((up.status, up.status_code, up.response_time_ms, up.error), (Status::Up, Some(204), 12, None));
    let down = classify_response(&exp, Ok(503), 30);
    assert_eq!(down.status, Status::Down);
    assert_eq!(down.error, Some("Unexpected status code: 503".into()));
    let failed = classify_response(&exp, Err("connection refused".into()), 1);
    assert_eq!(failed.status_code, None);
    assert_eq!(failed.error, Some("Request failed: connection refused".into()));
    // No expected codes: any 2xx answer is up, anything else is down.
    let any = expected_status_or_default(None);
    for code in [200u16, 201, 204, 299] {
        assert_eq!(classify_response(&any, Ok(code), 3).status, Status::Up, "{code}");
    }
    for code in [199u16, 300, 302, 404, 500] {
        let d = classify_response(&any, Ok(code), 3);
        assert_eq!(d.status, Status::Down, "{code}");
        assert_eq!(d.error, Some(format!("Unexpected status code: {code}")));
    }
}

fn vars() -> ConfigVars {
    ConfigVars {
        database_url: None,
        oauth_issuer_url: Some("https://issuer".into()),
        oauth_client_id: Some("id".into()),
        oauth_client_secret: Some("secret".into()),
        oauth_redirect_url: Some("https://app/cb".into()),
        jwt_secret: Some("jwt".into()),
    }
}

#[test]
fn config_defaults_and_missing_vars() {
    let c = config_from_vars(vars()).unwrap();
    assert_eq!(c.database_url, "sqlite:flatline.db");
    assert_eq!(c.jwt_secret, "jwt");
    let mut v = vars();
    v.database_url = Some("sqlite:other.db".into());
    assert_eq!(config_from_vars(v).unwrap().database_url, "sqlite:other.db");
    let mut v = vars();
    v.oauth_client_id = None;
    v.jwt_secret = None;
    assert_eq!(config_from_vars(v), Err("OAUTH_CLIENT_ID must be set".into()));
    let mut v = vars();
    v.jwt_secret = None;
    assert_eq!(config_from_vars(v), Err("JWT_SECRET must be set".into()));
}

#[test]
fn method_names_and_check_plans() {
    assert_eq!(http_method_from_name("GET"), Some(HttpMethod::Get));
    assert_eq!(http_method_from_name("PATCH"), Some(HttpMethod::Patch));
    assert_eq!(http_method_from_name("OPTIONS"), Some(HttpMethod::Options));
    assert_eq!(http_method_from_name("get"), None);
    assert_eq!(http_method_from_name(""), None);
    let mut m = Monitor {
        id: "m".into(),
        name: "api".into(),
        enabled: true,
        interval: 60,
        timeout: 7,
        retries: 0,
        config: MonitorConfig::Http { url: "https://x.example/health".into(), method: Some("HEAD".into()), expected_status: vec![204] },
    };
    let p = check_plan(&m);
    assert_eq!((p.url.as_str(), p.method, p.expected_status.clone(), p.timeout_secs), ("https://x.example/health", HttpMethod::Head, vec![204], 7));
    m.config = MonitorConfig::Http { url: "https://x.example".into(), method: None, expected_status: vec![] };
    let p = check_plan(&m);
    assert_eq!((p.method, p.expected_status.clone()), (HttpMethod::Get, Vec::<u16>::new()));
    assert_eq!(classify_response(&p.expected_status, Ok(204), 1).status, Status::Up);
    m.config = MonitorConfig::Http { url: "https://x.example".into(), method: Some("FETCH".into()), expected_status: vec![] };
    assert_eq!(check_plan(&m).method, HttpMethod::Get);
}

#[test]
fn notifiers_follow_links_in_order() {
    let ch = |id: &str, config: NotificationChannelConfig| NotificationChannel {
        id: id.into(),
        name: id.into(),
        config,
        created_at: "2024-01-01T00:00:00Z".into(),
    };
    let channels = vec![
        ch("s", NotificationChannelConfig::Slack { url: "https://slack".into() }),
        ch("w", NotificationChannelConfig::Webhook { url: "https://hook".into() }),
    ];
    let link = |id: &str| MonitorNotification { id: "l".into(), channel_id: id.into(), on_recovery: false };
    assert_eq!(
        notifiers_for_links(&vec![link("w"), link("gone"), link("s")], &channels),
        vec![
            NotifierTarget::Webhook { url: "https://hook".into(), method: HttpMethod::Post },
            NotifierTarget::Slack { url: "https://slack".into() },
        ]
    );
    assert_eq!(notifiers_for_links(&vec![], &channels), vec![]);
}

#[test]
fn message_parts_from_formatted_values() {
    assert_eq!(user_id_from_parsed(Some(7)), Ok(7));
    assert_eq!(user_id_from_parsed(None), Err(ApiError::Unauthorized));
    assert_eq!(
        down_chat_text("api", "2024-05-01 10:00:00 UTC", "Request failed: timeout"),
        "🚨 Monitor *api* is down as of 2024-05-01 10:00:00 UTC. Error: Request failed: timeout"
    );
    assert_eq!(recovered_chat_text("api", "abc"), "✅ Monitor *api* has recovered. Incident ID: abc");
    let e = down_embed("api", "T", "E", "2024-05-01T10:00:00+00:00".to_string());
    assert_eq!(e.title, "🚨 Monitor *api* is down");
    assert_eq!(e.description, "Checked at: T\nError: E");
    assert_eq!((e.color, e.timestamp.as_str()), (DOWN_COLOR, "2024-05-01T10:00:00+00:00"));
    let r = recovered_embed("api", "abc", "ts".to_string());
    assert_eq!(r.title, "✅ Monitor *api* has recovered");
    assert_eq!(r.description, "Incident ID: abc");
    assert_eq!((r.color, r.timestamp.as_str()), (RECOVERED_COLOR, "ts"));
}

#[test]
fn repository_failures() {
    let id: u128 = 0x550e8400_e29b_41d4_a716_446655440000;
    let ch: u128 = 0x0190_0000_0000_7000_8000_0000_0000_0001;
    assert_eq!(
        status_page_write_error(WriteFailure::UniqueViolation, "main"),
        ApiError::BadRequest("slug 'main' is already taken".into())
    );
    assert_eq!(
        status_page_write_error(WriteFailure::Other("disk I/O error".into()), "main"),
        ApiError::InternalServerError("disk I/O error".into())
    );
    assert_eq!(
        page_monitor_write_error(WriteFailure::UniqueViolation, id),
        ApiError::BadRequest("monitor 550e8400-e29b-41d4-a716-446655440000 is already on this status page".into())
    );
    assert_eq!(
        link_write_error(WriteFailure::UniqueViolation, id, ch),
        ApiError::BadRequest(format!(
            "monitor 550e8400-e29b-41d4-a716-446655440000 is already linked to channel {}",
            uuid::Uuid::from_u128(ch)
        ))
    );
    assert_eq!(page_monitor_removed(1, ch, id), Ok(()));
    assert_eq!(
        page_monitor_removed(0, ch, id),
        Err(ApiError::NotFound(format!(
            "monitor 550e8400-e29b-41d4-a716-446655440000 is not on status page {}",
            uuid::Uuid::from_u128(ch)
        )))
    );
    assert_eq!(link_removed(2, id, ch), Ok(()));
    assert_eq!(
        link_removed(0, id, ch),
        Err(ApiError::NotFound(format!(
            "no notification link between monitor 550e8400-e29b-41d4-a716-446655440000 and channel {}",
            uuid::Uuid::from_u128(ch)
        )))
    );
    assert_eq!(
        not_found(Entity::NotificationChannel, id),
        ApiError::NotFound("notification channel 550e8400-e29b-41d4-a716-446655440000 not found".into())
    );
    assert_eq!(
        not_found(Entity::Incident, id),
        ApiError::NotFound("incident 550e8400-e29b-41d4-a716-446655440000 not found".into())
    );
    assert_eq!(slug_not_found("main"), ApiError::NotFound("status page 'main' not found".into()));
    assert_eq!(user_not_found(), ApiError::NotFound("user not found".into()));
}
