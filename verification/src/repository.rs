use vstd::prelude::*;
use crate::error::ApiError;
use crate::model::{MonitorCheckStatus, MonitorConfig, NotificationChannelConfig};
use crate::strings::str_eq;
use crate::text::push_str;

verus! {

/// Checks returned by default for one page of a monitor's history.
pub fn default_checks_limit() -> (r: i64)
    ensures
        r == 25,
{
    25
}

/// Incidents returned by default for one page of a monitor's history.
pub fn default_incidents_limit() -> (r: i64)
    ensures
        r == 25,
{
    25
}

/// The page size actually used for a requested `limit`: at most 100, and
/// a negative request is read as zero.
pub fn clamp_limit(limit: i64) -> (r: i64)
    ensures
        r == (if limit < 0 {
            0
        } else if limit <= 100 {
            limit
        } else {
            100
        }),
        0 <= r <= 100,
{
    if limit < 0 {
        0
    } else if limit <= 100 {
        limit
    } else {
        100
    }
}

/// The editable settings of a monitor as the server stores them.
#[derive(Debug, Clone, PartialEq, Eq)]
pub struct MonitorSettings {
    pub name: String,
    pub config: MonitorConfig,
    pub interval: u32,
    pub timeout: u32,
    pub enabled: bool,
}

/// A partial update of a monitor; absent fields are kept.
#[derive(Debug, Clone, PartialEq, Eq)]
pub struct UpdateMonitorRequest {
    pub name: Option<String>,
    pub config: Option<MonitorConfig>,
    pub interval: Option<u32>,
    pub timeout: Option<u32>,
    pub enabled: Option<bool>,
}

/// The request to create a monitor.
#[derive(Debug, Clone, PartialEq, Eq)]
pub struct CreateMonitorRequest {
    pub name: String,
    pub config: MonitorConfig,
    pub interval: u32,
    pub timeout: u32,
    pub enabled: Option<bool>,
}

/// The settings a new monitor is stored with: enabled unless asked otherwise.
pub fn new_monitor_settings(input: CreateMonitorRequest) -> (r: MonitorSettings)
    ensures
        r.name == input.name,
        r.config == input.config,
        r.interval == input.interval,
        r.timeout == input.timeout,
        r.enabled == (match input.enabled {
            Some(e) => e,
            None => true,
        }),
{
    MonitorSettings {
        name: input.name,
        config: input.config,
        interval: input.interval,
        timeout: input.timeout,
        enabled: match input.enabled {
            Some(e) => e,
            None => true,
        },
    }
}

/// The value an optional field of an update leaves: the new value when the
/// update has one, else the old.
pub open spec fn keep_or<T>(update: Option<T>, old: T) -> T {
    match update {
        Some(v) => v,
        None => old,
    }
}

/// A monitor's settings after an update: absent fields are kept.
pub open spec fn merged_monitor(existing: MonitorSettings, input: UpdateMonitorRequest) -> MonitorSettings {
    MonitorSettings {
        name: keep_or(input.name, existing.name),
        config: keep_or(input.config, existing.config),
        interval: keep_or(input.interval, existing.interval),
        timeout: keep_or(input.timeout, existing.timeout),
        enabled: keep_or(input.enabled, existing.enabled),
    }
}

/// Applies an update to a monitor's settings, keeping absent fields.
pub fn merge_monitor_update(existing: MonitorSettings, input: UpdateMonitorRequest) -> (r:
    MonitorSettings)
    ensures
        r == merged_monitor(existing, input),
{
    MonitorSettings {
        name: match input.name {
            Some(v) => v,
            None => existing.name,
        },
        config: match input.config {
            Some(v) => v,
            None => existing.config,
        },
        interval: match input.interval {
            Some(v) => v,
            None => existing.interval,
        },
        timeout: match input.timeout {
            Some(v) => v,
            None => existing.timeout,
        },
        enabled: match input.enabled {
            Some(v) => v,
            None => existing.enabled,
        },
    }
}

/// An update that sets nothing leaves a monitor as it was, and applying the
/// same update twice is applying it once.
pub proof fn lemma_monitor_update_laws(existing: MonitorSettings, input: UpdateMonitorRequest)
    ensures
        merged_monitor(
            existing,
            UpdateMonitorRequest {
                name: None,
                config: None,
                interval: None,
                timeout: None,
                enabled: None,
            },
        ) == existing,
        merged_monitor(merged_monitor(existing, input), input) == merged_monitor(existing, input),
{
}

/// Each field an update sets takes the value it is set to, and each field it
/// leaves out keeps the value it had.
pub proof fn lemma_monitor_update_sets_fields(existing: MonitorSettings, input: UpdateMonitorRequest)
    ensures
        ({
            let r = merged_monitor(existing, input);
            &&& input.name matches Some(v) ==> r.name == v
            &&& input.name is None ==> r.name == existing.name
            &&& input.config matches Some(v) ==> r.config == v
            &&& input.config is None ==> r.config == existing.config
            &&& input.interval matches Some(v) ==> r.interval == v
            &&& input.interval is None ==> r.interval == existing.interval
            &&& input.timeout matches Some(v) ==> r.timeout == v
            &&& input.timeout is None ==> r.timeout == existing.timeout
            &&& input.enabled matches Some(v) ==> r.enabled == v
            &&& input.enabled is None ==> r.enabled == existing.enabled
        }),
{
}

/// The editable settings of a notification channel.
#[derive(Debug, Clone, PartialEq, Eq)]
pub struct ChannelSettings {
    pub name: String,
    pub config: NotificationChannelConfig,
}

/// A partial update of a notification channel; absent fields are kept.
#[derive(Debug, Clone, PartialEq, Eq)]
pub struct UpdateNotificationChannelRequest {
    pub name: Option<String>,
    pub config: Option<NotificationChannelConfig>,
}

/// A channel's settings after an update: absent fields are kept.
pub open spec fn merged_channel(existing: ChannelSettings, input: UpdateNotificationChannelRequest) -> ChannelSettings {
    ChannelSettings {
        name: keep_or(input.name, existing.name),
        config: keep_or(input.config, existing.config),
    }
}

/// Applies an update to a notification channel, keeping absent fields.
pub fn merge_channel_update(existing: ChannelSettings, input: UpdateNotificationChannelRequest) -> (r:
    ChannelSettings)
    ensures
        r == merged_channel(existing, input),
{
    ChannelSettings {
        name: match input.name {
            Some(v) => v,
            None => existing.name,
        },
        config: match input.config {
            Some(v) => v,
            None => existing.config,
        },
    }
}

/// An update that sets nothing leaves a channel as it was, and applying the
/// same update twice is applying it once.
pub proof fn lemma_channel_update_laws(existing: ChannelSettings, input: UpdateNotificationChannelRequest)
    ensures
        merged_channel(existing, UpdateNotificationChannelRequest { name: None, config: None })
            == existing,
        merged_channel(merged_channel(existing, input), input) == merged_channel(existing, input),
{
}

/// Each field a channel update sets takes the value it is set to, and each
/// field it leaves out keeps the value it had.
pub proof fn lemma_channel_update_sets_fields(
    existing: ChannelSettings,
    input: UpdateNotificationChannelRequest,
)
    ensures
        ({
            let r = merged_channel(existing, input);
            &&& input.name matches Some(v) ==> r.name == v
            &&& input.name is None ==> r.name == existing.name
            &&& input.config matches Some(v) ==> r.config == v
            &&& input.config is None ==> r.config == existing.config
        }),
{
}

/// Whether a new monitor-to-channel link notifies on recovery: yes unless
/// asked otherwise.
pub fn on_recovery_or_default(on_recovery: Option<bool>) -> (r: bool)
    ensures
        r == (match on_recovery {
            Some(v) => v,
            None => true,
        }),
{
    match on_recovery {
        Some(v) => v,
        None => true,
    }
}

/// The text a check status is stored as.
pub fn check_status_text(status: MonitorCheckStatus) -> (r: &'static str)
    ensures
        r@ == (match status {
            MonitorCheckStatus::Up => "up"@,
            MonitorCheckStatus::Down => "down"@,
        }),
{
    match status {
        MonitorCheckStatus::Up => "up",
        MonitorCheckStatus::Down => "down",
    }
}

/// Reads a stored check status back: `up` or `down`, anything else is an
/// internal error naming the unknown text.
pub fn parse_check_status(s: &str) -> (r: Result<MonitorCheckStatus, ApiError>)
    ensures
        s@ == "up"@ ==> r == Ok::<MonitorCheckStatus, ApiError>(MonitorCheckStatus::Up),
        s@ == "down"@ ==> r == Ok::<MonitorCheckStatus, ApiError>(MonitorCheckStatus::Down),
        s@ != "up"@ && s@ != "down"@ ==> (r matches Err(ApiError::InternalServerError(m)) && m@
            == "unknown status: "@ + s@),
{
    proof {
        reveal_strlit("up");
        reveal_strlit("down");
        assert("up"@.len() != "down"@.len());
    }
    if str_eq(s, "up") {
        Ok(MonitorCheckStatus::Up)
    } else if str_eq(s, "down") {
        Ok(MonitorCheckStatus::Down)
    } else {
        let mut m = String::from_str("unknown status: ");
        push_str(&mut m, s);
        Err(ApiError::InternalServerError(m))
    }
}

/// The latency percentiles of a window from the query's two columns: both
/// are needed, and each is read back as an unsigned number.
pub fn latency_from_row(p50: Option<i64>, p95: Option<i64>) -> (r: Option<(u64, u64)>)
    ensures
        match (p50, p95) {
            (Some(a), Some(b)) => r == Some((a as u64, b as u64)),
            _ => r is None,
        },
{
    match (p50, p95) {
        (Some(a), Some(b)) => Some((a as u64, b as u64)),
        _ => None,
    }
}

/// The downtime of a window from the query's columns: no figure when the
/// monitor was not watched during the window, else the downtime seconds,
/// never below zero.
pub fn uptime_window(monitored_seconds: i64, downtime_seconds: i64) -> (r: Option<u64>)
    ensures
        monitored_seconds <= 0 ==> r is None,
        monitored_seconds > 0 ==> r == Some(
            if downtime_seconds > 0 {
                downtime_seconds as u64
            } else {
                0u64
            },
        ),
{
    if monitored_seconds <= 0 {
        return None;
    }
    if downtime_seconds > 0 {
        Some(downtime_seconds as u64)
    } else {
        Some(0)
    }
}

} // verus!
