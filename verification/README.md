# flatline

Flatline watches HTTP endpoints, opens an incident when one goes down,
notifies Slack, Telegram, Discord or a webhook, and serves a dashboard and
public status pages.

This crate is written in Verus. `src/` is the verified library: every
decision the monitor engine, the HTTP API and the dashboard make is an
executable function with a `requires`/`ensures` contract, and the properties
that span several calls (alerts alternate, one outage raises one alert,
stored values read back unchanged, updates are idempotent, links lead back
to their page, ...) are proof functions named `lemma_*`.

- `src/model.rs` – monitors, checks, incidents, channels and form bodies.
- `src/checks.rs`, `src/monitor_state.rs`, `src/notify.rs` – the check of an
  endpoint, the alerting state machine with its retry budget, and the
  messages each notifier sends.
- `src/config.rs`, `src/error.rs`, `src/auth.rs`, `src/repository.rs`,
  `src/store.rs`, `src/status_pages.rs`, `src/downtime.rs`, `src/web.rs` –
  the API's settings, error answers, session cookies, update rules, storage
  errors, slug rules, the 90-day downtime history and asset paths.
- `src/format.rs`, `src/channels.rs`, `src/forms.rs`, `src/dashboard.rs`,
  `src/summary.rs`, `src/status_views.rs`, `src/live.rs`, `src/routes.rs` –
  the dashboard's number and time formatting, form validation, summaries,
  live updates and route table.
- `src/text.rs`, `src/strings.rs`, `src/ids.rs` – decimal text, trimming and
  UUID text, shared by the rest.

The few calls into other code (`String::push`, `str::to_lowercase`,
`char::is_alphanumeric`, `uuid`'s parser and formatter, `chrono`'s date
formatting) sit behind small `#[verifier::external_body]` wrappers whose
doc comments say what their contracts assume.

`app/` is an ordinary Rust program around the library: it runs one worker
per enabled monitor of a JSON state file, performs the HTTP checks and
notifications with `reqwest`, and prints the live events as JSON lines. The
floating-point figures of the dashboard live there too.

`tests/` exercises the library on concrete values, including one test per
law.
