use vstd::prelude::*;
use crate::ids::{hyphenated, uuid_to_string};
use crate::model::{Monitor, MonitorNotification, NotificationChannel, NotificationChannelConfig};
use crate::text::push_str;

verus! {

/// An incident as the server stores it; times are nanoseconds since the Unix
/// epoch (UTC).
#[derive(Debug, Clone, Copy, PartialEq, Eq, Structural)]
pub struct IncidentRecord {
    pub id: u128,
    pub monitor_id: u128,
    pub started_at: i64,
    pub resolved_at: Option<i64>,
}

/// What a notification reports.
#[derive(Debug, Clone, PartialEq, Eq)]
pub enum NotificationEvent {
    MonitorDown { monitor: Monitor, checked_at: i64, error: String },
    MonitorRecovered { monitor: Monitor, incident: IncidentRecord },
}

/// One embed of a Discord message.
#[derive(Debug, Clone, PartialEq, Eq)]
pub struct Embed {
    pub title: String,
    pub description: String,
    pub color: u32,
    pub timestamp: String,
}

/// A Telegram `sendMessage` body.
#[derive(Debug, Clone, PartialEq, Eq)]
pub struct TelegramMessage {
    pub chat_id: String,
    pub text: String,
    pub disable_notification: bool,
}

/// The text `chrono` displays for the UTC date-time at `nanos`
/// (`YYYY-MM-DD HH:MM:SS[.fraction] UTC`).
pub uninterp spec fn utc_text(nanos: i64) -> Seq<char>;

/// The RFC 3339 text `chrono` writes for the UTC date-time at `nanos`.
pub uninterp spec fn rfc3339_text(nanos: i64) -> Seq<char>;

/// Displays a UTC date-time with `chrono`'s `Display` for `DateTime<Utc>`.
/// The calendar conversion is not written out: the contract names the text.
#[verifier::external_body]
pub(crate) fn utc_display(nanos: i64) -> (r: String)
    ensures
        r@ == utc_text(nanos),
{
    chrono::DateTime::from_timestamp_nanos(nanos).to_string()
}

/// Writes a UTC date-time with `chrono`'s `DateTime::to_rfc3339`. The
/// calendar conversion is not written out: the contract names the text.
#[verifier::external_body]
pub(crate) fn rfc3339(nanos: i64) -> (r: String)
    ensures
        r@ == rfc3339_text(nanos),
{
    chrono::DateTime::from_timestamp_nanos(nanos).to_rfc3339()
}

/// The text of a chat notification (Slack and Telegram share it).
pub open spec fn chat_text(event: NotificationEvent) -> Seq<char> {
    match event {
        NotificationEvent::MonitorDown { monitor, checked_at, error } => "🚨 Monitor *"@
            + monitor.name@ + "* is down as of "@ + utc_text(checked_at) + ". Error: "@ + error@,
        NotificationEvent::MonitorRecovered { monitor, incident } => "✅ Monitor *"@
            + monitor.name@ + "* has recovered. Incident ID: "@ + hyphenated(incident.id),
    }
}

/// The chat text of a down notification for monitor `name`, given the text
/// `at` of the check's time and the check's error.
pub fn down_chat_text(name: &str, at: &str, error: &str) -> (r: String)
    ensures
        r@ == "🚨 Monitor *"@ + name@ + "* is down as of "@ + at@ + ". Error: "@ + error@,
{
    let mut s = String::from_str("🚨 Monitor *");
    push_str(&mut s, name);
    push_str(&mut s, "* is down as of ");
    push_str(&mut s, at);
    push_str(&mut s, ". Error: ");
    push_str(&mut s, error);
    s
}

/// The chat text of a recovery notification for monitor `name`, given the
/// text `id` of the incident's id.
pub fn recovered_chat_text(name: &str, id: &str) -> (r: String)
    ensures
        r@ == "✅ Monitor *"@ + name@ + "* has recovered. Incident ID: "@ + id@,
{
    let mut s = String::from_str("✅ Monitor *");
    push_str(&mut s, name);
    push_str(&mut s, "* has recovered. Incident ID: ");
    push_str(&mut s, id);
    s
}

/// The text of a Slack or Telegram message for `event`.
pub fn chat_message_text(event: &NotificationEvent) -> (r: String)
    ensures
        r@ == chat_text(*event),
{
    match event {
        NotificationEvent::MonitorDown { monitor, checked_at, error } => {
            let at = utc_display(*checked_at);
            down_chat_text(monitor.name.as_str(), at.as_str(), error.as_str())
        },
        NotificationEvent::MonitorRecovered { monitor, incident } => {
            let id = uuid_to_string(incident.id);
            recovered_chat_text(monitor.name.as_str(), id.as_str())
        },
    }
}

/// The Telegram message for `event`, sent silently to `chat_id`.
pub fn telegram_message(chat_id: &str, event: &NotificationEvent) -> (r: TelegramMessage)
    ensures
        r.chat_id@ == chat_id@,
        r.text@ == chat_text(*event),
        r.disable_notification,
{
    TelegramMessage {
        chat_id: chat_id.to_owned(),
        text: chat_message_text(event),
        disable_notification: true,
    }
}

/// Red, the colour of a down embed.
pub const DOWN_COLOR: u32 = 15158332;

/// Green, the colour of a recovery embed.
pub const RECOVERED_COLOR: u32 = 5763719;

/// The Discord embed of a down notification for monitor `name`, given the
/// text `at` of the check's time, the check's error and the embed's
/// timestamp text.
pub fn down_embed(name: &str, at: &str, error: &str, timestamp: String) -> (r: Embed)
    ensures
        r.title@ == "🚨 Monitor *"@ + name@ + "* is down"@,
        r.description@ == "Checked at: "@ + at@ + "\nError: "@ + error@,
        r.color == DOWN_COLOR,
        r.timestamp == timestamp,
{
    let mut title = String::from_str("🚨 Monitor *");
    push_str(&mut title, name);
    push_str(&mut title, "* is down");
    let mut description = String::from_str("Checked at: ");
    push_str(&mut description, at);
    push_str(&mut description, "\nError: ");
    push_str(&mut description, error);
    Embed { title, description, color: DOWN_COLOR, timestamp }
}

/// The Discord embed of a recovery notification for monitor `name`, given
/// the text `id` of the incident's id and the embed's timestamp text.
pub fn recovered_embed(name: &str, id: &str, timestamp: String) -> (r: Embed)
    ensures
        r.title@ == "✅ Monitor *"@ + name@ + "* has recovered"@,
        r.description@ == "Incident ID: "@ + id@,
        r.color == RECOVERED_COLOR,
        r.timestamp == timestamp,
{
    let mut title = String::from_str("✅ Monitor *");
    push_str(&mut title, name);
    push_str(&mut title, "* has recovered");
    let mut description = String::from_str("Incident ID: ");
    push_str(&mut description, id);
    Embed { title, description, color: RECOVERED_COLOR, timestamp }
}

/// The Discord embed for `event`; a recovery is stamped with `now`.
pub fn discord_embed(event: &NotificationEvent, now: i64) -> (r: Embed)
    ensures
        match *event {
            NotificationEvent::MonitorDown { monitor, checked_at, error } => {
                &&& r.title@ == "🚨 Monitor *"@ + monitor.name@ + "* is down"@
                &&& r.description@ == "Checked at: "@ + utc_text(checked_at) + "\nError: "@
                    + error@
                &&& r.color == DOWN_COLOR
                &&& r.timestamp@ == rfc3339_text(checked_at)
            },
            NotificationEvent::MonitorRecovered { monitor, incident } => {
                &&& r.title@ == "✅ Monitor *"@ + monitor.name@ + "* has recovered"@
                &&& r.description@ == "Incident ID: "@ + hyphenated(incident.id)
                &&& r.color == RECOVERED_COLOR
                &&& r.timestamp@ == rfc3339_text(now)
            },
        },
{
    match event {
        NotificationEvent::MonitorDown { monitor, checked_at, error } => {
            let at = utc_display(*checked_at);
            down_embed(monitor.name.as_str(), at.as_str(), error.as_str(), rfc3339(*checked_at))
        },
        NotificationEvent::MonitorRecovered { monitor, incident } => {
            let id = uuid_to_string(incident.id);
            recovered_embed(monitor.name.as_str(), id.as_str(), rfc3339(now))
        },
    }
}

/// Where and how a channel's notifications are sent.
#[derive(Debug, Clone, PartialEq, Eq)]
pub enum NotifierTarget {
    /// A webhook receives the event as JSON with the given method.
    Webhook { url: String, method: crate::checks::HttpMethod },
    Slack { url: String },
    Telegram { url: String, chat_id: String },
    Discord { url: String },
}

/// Where the notifications of a channel configured as `config` go: webhooks
/// are called with `POST`.
pub open spec fn spec_notifier_for(config: NotificationChannelConfig) -> NotifierTarget {
    match config {
        NotificationChannelConfig::Webhook { url } => NotifierTarget::Webhook {
            url,
            method: crate::checks::HttpMethod::Post,
        },
        NotificationChannelConfig::Slack { url } => NotifierTarget::Slack { url },
        NotificationChannelConfig::Telegram { url, chat_id } => NotifierTarget::Telegram {
            url,
            chat_id,
        },
        NotificationChannelConfig::Discord { url } => NotifierTarget::Discord { url },
    }
}

/// A channel's notifications go to a notifier of the channel's own kind, at
/// the channel's own URL: a webhook channel to a webhook called with `POST`,
/// a Slack channel to Slack, a Telegram channel to Telegram with its chat, a
/// Discord channel to Discord.
pub proof fn lemma_notifier_matches_channel(config: NotificationChannelConfig)
    ensures
        config matches NotificationChannelConfig::Webhook { url } ==> spec_notifier_for(config)
            matches NotifierTarget::Webhook { url: u, method: m } && u == url && m
            == crate::checks::HttpMethod::Post,
        config matches NotificationChannelConfig::Slack { url } ==> spec_notifier_for(config)
            matches NotifierTarget::Slack { url: u } && u == url,
        config matches NotificationChannelConfig::Telegram { url, chat_id } ==> spec_notifier_for(
            config,
        ) matches NotifierTarget::Telegram { url: u, chat_id: c } && u == url && c == chat_id,
        config matches NotificationChannelConfig::Discord { url } ==> spec_notifier_for(config)
            matches NotifierTarget::Discord { url: u } && u == url,
{
}

/// The notifier for a channel; webhooks are called with `POST`.
pub fn notifier_for(config: &NotificationChannelConfig) -> (r: NotifierTarget)
    ensures
        r == spec_notifier_for(*config),
{
    match config {
        NotificationChannelConfig::Webhook { url } => NotifierTarget::Webhook {
            url: url.clone(),
            method: crate::checks::webhook_method(None),
        },
        NotificationChannelConfig::Slack { url } => NotifierTarget::Slack { url: url.clone() },
        NotificationChannelConfig::Telegram { url, chat_id } => NotifierTarget::Telegram {
            url: url.clone(),
            chat_id: chat_id.clone(),
        },
        NotificationChannelConfig::Discord { url } => NotifierTarget::Discord { url: url.clone() },
    }
}

/// Position of the first channel of `channels` (from `k` on) with id `id`.
pub open spec fn first_channel_from(channels: Seq<NotificationChannel>, id: Seq<char>, k: int) -> Option<
    int,
>
    decreases channels.len() - k,
{
    if k < 0 || k >= channels.len() {
        None
    } else if channels[k].id@ == id {
        Some(k)
    } else {
        first_channel_from(channels, id, k + 1)
    }
}

proof fn lemma_first_channel_found(channels: Seq<NotificationChannel>, id: Seq<char>, k: int)
    requires
        0 <= k,
    ensures
        first_channel_from(channels, id, k) matches Some(j) ==> k <= j < channels.len()
            && channels[j].id@ == id,
    decreases channels.len() - k,
{
    if k < channels.len() && channels[k].id@ != id {
        lemma_first_channel_found(channels, id, k + 1);
    }
}

/// The notifiers a monitor's links lead to: for each link, in order, the
/// first channel with the linked id; a link to an unknown channel leads
/// nowhere.
pub open spec fn link_targets(links: Seq<MonitorNotification>, channels: Seq<NotificationChannel>) -> Seq<
    NotifierTarget,
>
    decreases links.len(),
{
    if links.len() == 0 {
        Seq::empty()
    } else {
        let rest = link_targets(links.drop_last(), channels);
        match first_channel_from(channels, links.last().channel_id@, 0) {
            Some(k) => rest.push(spec_notifier_for(channels[k].config)),
            None => rest,
        }
    }
}

/// The channel found for an id (searching from `k`) is the first from `k` on
/// with that id; none is found exactly when no channel from `k` on has it.
pub proof fn lemma_first_channel_is_first(channels: Seq<NotificationChannel>, id: Seq<char>, k: int)
    requires
        0 <= k,
    ensures
        match first_channel_from(channels, id, k) {
            Some(j) => k <= j < channels.len() && channels[j].id@ == id && forall|i: int|
                k <= i < j ==> #[trigger] channels[i].id@ != id,
            None => forall|i: int| k <= i < channels.len() ==> #[trigger] channels[i].id@ != id,
        },
    decreases channels.len() - k,
{
    if k < channels.len() && channels[k].id@ != id {
        lemma_first_channel_is_first(channels, id, k + 1);
    }
}

/// Links are handled one by one: the notifiers of two lists of links put
/// together are those of the first list followed by those of the second, a
/// single link to a known channel leads to that channel's notifier, and a
/// single link to an unknown channel leads nowhere.
pub proof fn lemma_link_targets_one_by_one(
    a: Seq<MonitorNotification>,
    b: Seq<MonitorNotification>,
    channels: Seq<NotificationChannel>,
)
    ensures
        link_targets(a + b, channels) == link_targets(a, channels) + link_targets(b, channels),
        a.len() == 1 ==> match first_channel_from(channels, a[0].channel_id@, 0) {
            Some(k) => link_targets(a, channels) == seq![spec_notifier_for(channels[k].config)],
            None => link_targets(a, channels) == Seq::<NotifierTarget>::empty(),
        },
    decreases b.len(),
{
    if a.len() == 1 {
        assert(a.drop_last() =~= Seq::<MonitorNotification>::empty());
        assert(link_targets(a.drop_last(), channels) == Seq::<NotifierTarget>::empty());
        assert(a.last() == a[0]);
        assert(Seq::<NotifierTarget>::empty().push(
            spec_notifier_for(channels[first_channel_from(channels, a[0].channel_id@, 0)->0].config),
        ) =~= seq![
            spec_notifier_for(channels[first_channel_from(channels, a[0].channel_id@, 0)->0].config),
        ]);
    }
    if b.len() > 0 {
        lemma_link_targets_one_by_one(a, b.drop_last(), channels);
        assert((a + b).drop_last() =~= a + b.drop_last());
        assert((a + b).last() == b.last());
        let t = link_targets(a, channels);
        let tb = link_targets(b.drop_last(), channels);
        match first_channel_from(channels, b.last().channel_id@, 0) {
            Some(k) => {
                assert((t + tb).push(spec_notifier_for(channels[k].config)) =~= t + tb.push(
                    spec_notifier_for(channels[k].config),
                ));
            },
            None => {},
        }
    } else {
        assert(a + b =~= a);
        assert(link_targets(b, channels) == Seq::<NotifierTarget>::empty());
        assert(link_targets(a, channels) + Seq::<NotifierTarget>::empty() =~= link_targets(
            a,
            channels,
        ));
    }
}

/// Finds the first channel with id `id`.
fn find_channel(channels: &Vec<NotificationChannel>, id: &String) -> (r: Option<usize>)
    ensures
        match first_channel_from(channels@, id@, 0) {
            Some(k) => r matches Some(x) && x as int == k,
            None => r is None,
        },
{
    let mut k: usize = 0;
    while k < channels.len()
        invariant
            k <= channels.len(),
            first_channel_from(channels@, id@, k as int) == first_channel_from(channels@, id@, 0),
        decreases channels.len() - k,
    {
        if channels[k].id == *id {
            return Some(k);
        }
        k = k + 1;
    }
    None
}

/// The notifiers to alert for a monitor whose links are `links`.
pub fn notifiers_for_links(links: &Vec<MonitorNotification>, channels: &Vec<NotificationChannel>) -> (r:
    Vec<NotifierTarget>)
    ensures
        r@ == link_targets(links@, channels@),
{
    let mut out: Vec<NotifierTarget> = Vec::new();
    let mut i: usize = 0;
    while i < links.len()
        invariant
            i <= links.len(),
            out@ == link_targets(links@.take(i as int), channels@),
        decreases links.len() - i,
    {
        let ghost t = links@.take(i as int + 1);
        proof {
            assert(t.drop_last() =~= links@.take(i as int));
            assert(t.last() == links@[i as int]);
            lemma_first_channel_found(channels@, t.last().channel_id@, 0);
        }
        match find_channel(channels, &links[i].channel_id) {
            Some(k) => {
                assert(first_channel_from(channels@, t.last().channel_id@, 0) == Some(k as int));
                out.push(notifier_for(&channels[k].config));
            },
            None => {},
        }
        assert(link_targets(t, channels@) == match first_channel_from(
            channels@,
            t.last().channel_id@,
            0,
        ) {
            Some(k) => link_targets(t.drop_last(), channels@).push(
                spec_notifier_for(channels@[k].config),
            ),
            None => link_targets(t.drop_last(), channels@),
        });
        i = i + 1;
    }
    assert(links@.take(links.len() as int) =~= links@);
    out
}

} // verus!
