use vstd::prelude::*;

verus! {

/// How a monitor reaches its target. Only HTTP checks exist; an empty
/// `expected_status` accepts any 2xx status.
#[derive(Debug, Clone, PartialEq, Eq)]
pub enum MonitorConfig {
    Http { url: String, method: Option<String>, expected_status: Vec<u16> },
}

/// A configured monitor, as the API hands it out.
#[derive(Debug, Clone, PartialEq, Eq)]
pub struct Monitor {
    pub id: String,
    pub name: String,
    pub enabled: bool,
    pub interval: u32,
    pub timeout: u32,
    pub retries: u32,
    pub config: MonitorConfig,
}

/// The recorded result of one check.
#[derive(Debug, Clone, Copy, PartialEq, Eq, Structural)]
pub enum MonitorCheckStatus {
    Up,
    Down,
}

/// One stored check of a monitor; `checked_at` is an RFC 3339 string.
#[derive(Debug, Clone, PartialEq, Eq)]
pub struct MonitorCheck {
    pub status: MonitorCheckStatus,
    pub status_code: Option<u16>,
    pub response_time_ms: u64,
    pub error_message: Option<String>,
    pub checked_at: String,
}

/// An incident as the dashboard shows it: RFC 3339 start and optional end.
#[derive(Debug, Clone, PartialEq, Eq)]
pub struct Incident {
    pub started_at: String,
    pub resolved_at: Option<String>,
}

/// Where a notification channel delivers its messages.
#[derive(Debug, Clone, PartialEq, Eq)]
pub enum NotificationChannelConfig {
    Webhook { url: String },
    Slack { url: String },
    Telegram { url: String, chat_id: String },
    Discord { url: String },
}

/// A named notification channel.
#[derive(Debug, Clone, PartialEq, Eq)]
pub struct NotificationChannel {
    pub id: String,
    pub name: String,
    pub config: NotificationChannelConfig,
    pub created_at: String,
}

/// A link between a monitor and a notification channel.
#[derive(Debug, Clone, PartialEq, Eq)]
pub struct MonitorNotification {
    pub id: String,
    pub channel_id: String,
    pub on_recovery: bool,
}

/// The body sent to create a monitor or to update all of its fields.
#[derive(Debug, Clone, PartialEq, Eq)]
pub struct MonitorFormData {
    pub name: String,
    pub interval: u32,
    pub timeout: u32,
    pub retries: u32,
    pub enabled: bool,
    pub config: MonitorConfigInput,
}

/// The check configuration part of [`MonitorFormData`].
#[derive(Debug, Clone, PartialEq, Eq)]
pub enum MonitorConfigInput {
    Http { url: String, method: String, expected_status: Vec<u16> },
}

/// The body sent to create or update a notification channel.
#[derive(Debug, Clone, PartialEq, Eq)]
pub struct NotificationChannelFormData {
    pub name: String,
    pub config: NotificationChannelConfigInput,
}

/// The channel configuration part of [`NotificationChannelFormData`].
#[derive(Debug, Clone, PartialEq, Eq)]
pub enum NotificationChannelConfigInput {
    Webhook { url: String },
    Slack { webhook_url: String },
    Telegram { url: String, chat_id: String },
    Discord { url: String },
}

} // verus!
