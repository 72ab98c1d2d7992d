use vstd::prelude::*;
use crate::model::{
    MonitorNotification, NotificationChannel, NotificationChannelConfig, NotificationChannelConfigInput,
    NotificationChannelFormData,
};
use crate::strings::{has_prefix, lemma_trim_idempotent, trim, trim_str, utf8_len_exceeds};
use crate::text::push_str;

verus! {

/// Whether `t` starts with `p`.
pub open spec fn starts_with(t: Seq<char>, p: Seq<char>) -> bool {
    p.len() <= t.len() && t.subrange(0, p.len() as int) == p
}

/// A URL the forms accept: once trimmed it starts with `http://` or
/// `https://` and is longer than eight bytes.
pub open spec fn valid_url(s: Seq<char>) -> bool {
    let t = trim(s);
    (starts_with(t, "http://"@) || starts_with(t, "https://"@)) && vstd::utf8::encode_utf8(t).len()
        > 8
}

/// A URL that a form accepts is stored trimmed, and the stored text is
/// accepted again and left as it is by trimming: saving a form is stable.
pub proof fn lemma_stored_url_stable(s: Seq<char>)
    requires
        valid_url(s),
    ensures
        valid_url(trim(s)),
        trim(trim(s)) == trim(s),
{
    lemma_trim_idempotent(s);
}

/// Whether `s` is an acceptable http(s) URL.
pub fn is_valid_url(s: &str) -> (r: bool)
    ensures
        r == valid_url(s@),
{
    let t = trim_str(s);
    (has_prefix(t, "http://") || has_prefix(t, "https://")) && utf8_len_exceeds(t, 8)
}

/// The URL that a channel delivers to.
pub open spec fn spec_channel_url(config: NotificationChannelConfig) -> Seq<char> {
    match config {
        NotificationChannelConfig::Webhook { url } => url@,
        NotificationChannelConfig::Slack { url } => url@,
        NotificationChannelConfig::Telegram { url, .. } => url@,
        NotificationChannelConfig::Discord { url } => url@,
    }
}

/// The URL that `config` delivers to.
pub fn channel_url(config: &NotificationChannelConfig) -> (r: &str)
    ensures
        r@ == spec_channel_url(*config),
{
    match config {
        NotificationChannelConfig::Webhook { url } => url.as_str(),
        NotificationChannelConfig::Slack { url } => url.as_str(),
        NotificationChannelConfig::Telegram { url, .. } => url.as_str(),
        NotificationChannelConfig::Discord { url } => url.as_str(),
    }
}

/// The lowercase key of a channel's kind.
pub fn channel_type_key(config: &NotificationChannelConfig) -> (r: &'static str)
    ensures
        r@ == (match *config {
            NotificationChannelConfig::Webhook { .. } => "webhook"@,
            NotificationChannelConfig::Slack { .. } => "slack"@,
            NotificationChannelConfig::Telegram { .. } => "telegram"@,
            NotificationChannelConfig::Discord { .. } => "discord"@,
        }),
{
    match config {
        NotificationChannelConfig::Webhook { .. } => "webhook",
        NotificationChannelConfig::Slack { .. } => "slack",
        NotificationChannelConfig::Telegram { .. } => "telegram",
        NotificationChannelConfig::Discord { .. } => "discord",
    }
}

/// The display name of a channel's kind.
pub fn channel_type_label(config: &NotificationChannelConfig) -> (r: &'static str)
    ensures
        r@ == (match *config {
            NotificationChannelConfig::Webhook { .. } => "Webhook"@,
            NotificationChannelConfig::Slack { .. } => "Slack"@,
            NotificationChannelConfig::Telegram { .. } => "Telegram"@,
            NotificationChannelConfig::Discord { .. } => "Discord"@,
        }),
{
    match config {
        NotificationChannelConfig::Webhook { .. } => "Webhook",
        NotificationChannelConfig::Slack { .. } => "Slack",
        NotificationChannelConfig::Telegram { .. } => "Telegram",
        NotificationChannelConfig::Discord { .. } => "Discord",
    }
}

/// The Slack channel configuration a form yields: present only for a valid
/// URL, which is stored trimmed.
pub fn build_slack_config(url: &str) -> (r: Option<NotificationChannelConfigInput>)
    ensures
        r is Some <==> valid_url(url@),
        r matches Some(NotificationChannelConfigInput::Slack { webhook_url }) ==> webhook_url@
            == trim(url@),
        r is Some ==> r->0 is Slack,
{
    if is_valid_url(url) {
        Some(NotificationChannelConfigInput::Slack { webhook_url: trim_str(url).to_owned() })
    } else {
        None
    }
}

/// The Telegram channel configuration a form yields: present only for a
/// valid URL and a chat id that is not blank; both are stored trimmed.
pub fn build_telegram_config(url: &str, chat_id: &str) -> (r: Option<
    NotificationChannelConfigInput,
>)
    ensures
        r is Some <==> (valid_url(url@) && trim(chat_id@).len() > 0),
        r is Some ==> r->0 is Telegram,
        r matches Some(NotificationChannelConfigInput::Telegram { url: u, chat_id: c }) ==> u@
            == trim(url@) && c@ == trim(chat_id@),
{
    if is_valid_url(url) && !trim_str(chat_id).is_empty() {
        Some(
            NotificationChannelConfigInput::Telegram {
                url: trim_str(url).to_owned(),
                chat_id: trim_str(chat_id).to_owned(),
            },
        )
    } else {
        None
    }
}

/// What the URL field of the monitor form previews.
#[derive(Debug, Clone, PartialEq, Eq)]
pub enum UrlPreview {
    /// Nothing typed yet.
    Empty,
    /// A valid URL, shown without its scheme.
    Valid(String),
    /// Something that is not a valid URL.
    Invalid,
}

/// `t` with every leading copy of `p` removed (what `trim_start_matches`
/// does with a string pattern).
pub open spec fn strip_all(t: Seq<char>, p: Seq<char>) -> Seq<char>
    decreases t.len(),
{
    if p.len() > 0 && starts_with(t, p) {
        strip_all(t.subrange(p.len() as int, t.len() as int), p)
    } else {
        t
    }
}

/// Removes every leading copy of the non-empty `p` from `t`.
fn strip_all_prefix<'a>(t: &'a str, p: &str) -> (r: &'a str)
    requires
        p@.len() > 0,
    ensures
        r@ == strip_all(t@, p@),
{
    let m = p.unicode_len();
    let mut cur: &str = t;
    while has_prefix(cur, p)
        invariant
            m == p@.len(),
            m > 0,
            strip_all(cur@, p@) == strip_all(t@, p@),
        decreases cur@.len(),
    {
        let n = cur.unicode_len();
        cur = cur.substring_char(m, n);
    }
    cur
}

/// The preview of the URL typed into the monitor form.
pub fn url_preview(url: &str) -> (r: UrlPreview)
    ensures
        trim(url@).len() == 0 ==> r == UrlPreview::Empty,
        trim(url@).len() > 0 && valid_url(url@) ==> (r matches UrlPreview::Valid(v) && v@
            == strip_all(strip_all(trim(url@), "https://"@), "http://"@)),
        trim(url@).len() > 0 && !valid_url(url@) ==> r == UrlPreview::Invalid,
{
    let t = trim_str(url);
    if t.is_empty() {
        return UrlPreview::Empty;
    }
    if is_valid_url(t) {
        proof {
            lemma_trim_idempotent(url@);
        }
        proof {
            reveal_strlit("https://");
            reveal_strlit("http://");
        }
        let a = strip_all_prefix(t, "https://");
        let b = strip_all_prefix(a, "http://");
        UrlPreview::Valid(b.to_owned())
    } else {
        proof {
            lemma_trim_idempotent(url@);
        }
        UrlPreview::Invalid
    }
}

/// The form input that edits a channel configured as `config`.
pub open spec fn config_input_of(config: NotificationChannelConfig) -> NotificationChannelConfigInput {
    match config {
        NotificationChannelConfig::Webhook { url } => NotificationChannelConfigInput::Webhook { url },
        NotificationChannelConfig::Slack { url } => NotificationChannelConfigInput::Slack {
            webhook_url: url,
        },
        NotificationChannelConfig::Telegram { url, chat_id } => NotificationChannelConfigInput::Telegram {
            url,
            chat_id,
        },
        NotificationChannelConfig::Discord { url } => NotificationChannelConfigInput::Discord { url },
    }
}

/// The starting state of the channel dialog.
#[derive(Debug, Clone, PartialEq, Eq)]
pub struct ChannelFormInit {
    pub name: String,
    /// The selected kind, as [`channel_type_key`] names it.
    pub type_key: &'static str,
    pub config: Option<NotificationChannelConfigInput>,
}

/// The dialog's starting values: empty for a new channel (a webhook by
/// default), else the edited channel's name, kind and configuration.
pub fn channel_form_init(channel: Option<&NotificationChannel>) -> (r: ChannelFormInit)
    ensures
        match channel {
            None => r.name@.len() == 0 && r.type_key@ == "webhook"@ && r.config is None,
            Some(ch) => {
                &&& r.name == ch.name
                &&& r.type_key@ == (match ch.config {
                    NotificationChannelConfig::Webhook { .. } => "webhook"@,
                    NotificationChannelConfig::Slack { .. } => "slack"@,
                    NotificationChannelConfig::Telegram { .. } => "telegram"@,
                    NotificationChannelConfig::Discord { .. } => "discord"@,
                })
                &&& r.config == Some(config_input_of(ch.config))
            },
        },
{
    match channel {
        None => ChannelFormInit { name: String::new(), type_key: "webhook", config: None },
        Some(ch) => {
            let config = match &ch.config {
                NotificationChannelConfig::Webhook { url } => NotificationChannelConfigInput::Webhook {
                    url: url.clone(),
                },
                NotificationChannelConfig::Slack { url } => NotificationChannelConfigInput::Slack {
                    webhook_url: url.clone(),
                },
                NotificationChannelConfig::Telegram { url, chat_id } => NotificationChannelConfigInput::Telegram {
                    url: url.clone(),
                    chat_id: chat_id.clone(),
                },
                NotificationChannelConfig::Discord { url } => NotificationChannelConfigInput::Discord {
                    url: url.clone(),
                },
            };
            ChannelFormInit {
                name: ch.name.clone(),
                type_key: channel_type_key(&ch.config),
                config: Some(config),
            }
        },
    }
}

/// What keeps the channel dialog from being saved.
#[derive(Debug, Clone, Copy, PartialEq, Eq, Structural)]
pub struct ChannelFormErrors {
    /// The name is blank.
    pub name: bool,
    /// The selected kind's fields do not make a valid configuration yet.
    pub config: bool,
}

/// Checks the channel dialog and builds the request body: the name must not
/// be blank and is sent trimmed, and a configuration must be complete.
pub fn submit_channel_form(name: &str, config: Option<NotificationChannelConfigInput>) -> (r: Result<
    NotificationChannelFormData,
    ChannelFormErrors,
>)
    ensures
        r is Ok <==> (trim(name@).len() > 0 && config is Some),
        r matches Err(e) ==> e == (ChannelFormErrors {
            name: trim(name@).len() == 0,
            config: config is None,
        }),
        r matches Ok(d) ==> d.name@ == trim(name@) && Some(d.config) == config,
{
    let t = trim_str(name);
    let name_ok = !t.is_empty();
    match config {
        Some(c) => if name_ok {
            Ok(NotificationChannelFormData { name: t.to_owned(), config: c })
        } else {
            Err(ChannelFormErrors { name: true, config: false })
        },
        None => Err(ChannelFormErrors { name: !name_ok, config: true }),
    }
}

/// The URL field's starting text for the webhook, Slack and Discord forms:
/// the URL of a configuration of one of those kinds, else empty.
pub fn config_form_url(config: &Option<NotificationChannelConfigInput>) -> (r: String)
    ensures
        r@ == (match *config {
            Some(NotificationChannelConfigInput::Webhook { url }) => url@,
            Some(NotificationChannelConfigInput::Slack { webhook_url }) => webhook_url@,
            Some(NotificationChannelConfigInput::Discord { url }) => url@,
            _ => Seq::<char>::empty(),
        }),
{
    match config {
        Some(NotificationChannelConfigInput::Webhook { url }) => url.clone(),
        Some(NotificationChannelConfigInput::Slack { webhook_url }) => webhook_url.clone(),
        Some(NotificationChannelConfigInput::Discord { url }) => url.clone(),
        _ => String::new(),
    }
}

/// The Telegram form's starting URL and chat id: those of a Telegram
/// configuration, else empty.
pub fn config_form_telegram(config: &Option<NotificationChannelConfigInput>) -> (r: (String, String))
    ensures
        match *config {
            Some(NotificationChannelConfigInput::Telegram { url, chat_id }) => r.0@ == url@ && r.1@
                == chat_id@,
            _ => r.0@.len() == 0 && r.1@.len() == 0,
        },
{
    match config {
        Some(NotificationChannelConfigInput::Telegram { url, chat_id }) => (url.clone(), chat_id.clone()),
        _ => (String::new(), String::new()),
    }
}

/// The error marks of the Telegram form once errors are shown: an invalid
/// URL, and a blank chat id.
pub fn telegram_field_errors(show_errors: bool, url: &str, chat_id: &str) -> (r: (bool, bool))
    ensures
        r.0 == (show_errors && !valid_url(url@)),
        r.1 == (show_errors && trim(chat_id@).len() == 0),
{
    (show_errors && !is_valid_url(url), show_errors && trim_str(chat_id).is_empty())
}

/// The error mark of a URL field (Slack form) once errors are shown.
pub fn url_field_error(show_errors: bool, url: &str) -> (r: bool)
    ensures
        r == (show_errors && !valid_url(url@)),
{
    show_errors && !is_valid_url(url)
}

/// One row of a monitor's list of linked channels.
#[derive(Debug, Clone, PartialEq, Eq)]
pub struct LinkedChannelRow {
    /// The channel's name, or `Unknown` for a channel that is not loaded.
    pub name: String,
    /// `Slack` for a Slack channel, `Webhook` otherwise.
    pub type_label: &'static str,
    pub on_recovery: bool,
}

/// Whether some channel of `channels` has the id `id`.
pub open spec fn has_channel(channels: Seq<NotificationChannel>, id: Seq<char>) -> bool {
    exists|k: int| 0 <= k < channels.len() && channels[k].id@ == id
}

/// The row of link `n`, described by the first channel with its id.
pub fn linked_channel_row(n: &MonitorNotification, channels: &Vec<NotificationChannel>) -> (r:
    LinkedChannelRow)
    ensures
        r.on_recovery == n.on_recovery,
        has_channel(channels@, n.channel_id@) ==> exists|k: int|
            0 <= k < channels@.len() && channels@[k].id@ == n.channel_id@ && (forall|j: int|
                0 <= j < k ==> channels@[j].id@ != n.channel_id@) && r.name@ == channels@[k].name@
                && r.type_label@ == (if channels@[k].config is Slack {
                "Slack"@
            } else {
                "Webhook"@
            }),
        !has_channel(channels@, n.channel_id@) ==> r.name@ == "Unknown"@ && r.type_label@
            == "Webhook"@,
{
    let mut k: usize = 0;
    while k < channels.len()
        invariant
            k <= channels.len(),
            forall|j: int| 0 <= j < k ==> channels@[j].id@ != n.channel_id@,
        decreases channels.len() - k,
    {
        if channels[k].id == n.channel_id {
            let type_label = match &channels[k].config {
                NotificationChannelConfig::Slack { .. } => "Slack",
                _ => "Webhook",
            };
            return LinkedChannelRow {
                name: channels[k].name.clone(),
                type_label,
                on_recovery: n.on_recovery,
            };
        }
        k = k + 1;
    }
    LinkedChannelRow {
        name: String::from_str("Unknown"),
        type_label: "Webhook",
        on_recovery: n.on_recovery,
    }
}

/// The mark that says whether a link also notifies on recovery.
pub fn recovery_text(on_recovery: bool) -> (r: &'static str)
    ensures
        r@ == (if on_recovery {
            "\u{2713} recovery"@
        } else {
            "\u{2013} recovery"@
        }),
{
    if on_recovery {
        "\u{2713} recovery"
    } else {
        "\u{2013} recovery"
    }
}

/// The entry of a channel in the list of channels to link: its name and,
/// in parentheses, its kind.
pub fn channel_option_label(c: &NotificationChannel) -> (r: String)
    ensures
        r@ == c.name@ + " ("@ + (match c.config {
            NotificationChannelConfig::Webhook { .. } => "Webhook"@,
            NotificationChannelConfig::Slack { .. } => "Slack"@,
            NotificationChannelConfig::Telegram { .. } => "Telegram"@,
            NotificationChannelConfig::Discord { .. } => "Discord"@,
        }) + ")"@,
{
    let mut s = c.name.clone();
    push_str(&mut s, " (");
    push_str(&mut s, channel_type_label(&c.config));
    push_str(&mut s, ")");
    s
}

} // verus!
