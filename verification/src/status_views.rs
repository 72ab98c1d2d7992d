use vstd::prelude::*;
use crate::model::Monitor;
use crate::text::{dec, push_char, push_decimal, push_str};

verus! {

/// What std's `str::to_lowercase` returns for a text: its lowercase mapping
/// under the Unicode `Lowercase` property.
pub uninterp spec fn lowercase_text(s: Seq<char>) -> Seq<char>;

/// Whether std's `char::is_alphanumeric` holds of `c` (Unicode `Alphabetic`
/// or `Numeric`).
pub uninterp spec fn unicode_alphanumeric(c: char) -> bool;

/// Lowercases a text with std's `str::to_lowercase`. The Unicode case tables
/// are not written out: the contract names the result.
#[verifier::external_body]
fn to_lowercase(s: &str) -> (r: String)
    ensures
        r@ == lowercase_text(s@),
{
    s.to_lowercase()
}

/// Tells whether a character is alphanumeric with std's
/// `char::is_alphanumeric`. The Unicode tables are not written out: the
/// contract names the result.
#[verifier::external_body]
fn is_alphanumeric(c: char) -> (r: bool)
    ensures
        r == unicode_alphanumeric(c),
{
    c.is_alphanumeric()
}

/// What a slug keeps of the character `c`, given whether it is
/// alphanumeric: a space becomes `-`, alphanumerics, `-` and `_` stay, and
/// anything else is dropped.
pub open spec fn slug_kept(c: char, alphanumeric: bool) -> Option<char> {
    if c == ' ' {
        Some('-')
    } else if alphanumeric || c == '-' || c == '_' {
        Some(c)
    } else {
        None
    }
}

/// The slug that the lowercased text `s` gives: each character kept as
/// [`slug_kept`] says, in order.
pub open spec fn sanitized(s: Seq<char>) -> Seq<char>
    decreases s.len(),
{
    if s.len() == 0 {
        Seq::empty()
    } else {
        sanitized(s.drop_last()) + match slug_kept(s.last(), unicode_alphanumeric(s.last())) {
            Some(d) => seq![d],
            None => Seq::empty(),
        }
    }
}

/// What a slug keeps of the character `c`, given whether `c` is
/// alphanumeric.
pub fn slug_char_for(c: char, alphanumeric: bool) -> (r: Option<char>)
    ensures
        r == slug_kept(c, alphanumeric),
{
    if c == ' ' {
        Some('-')
    } else if alphanumeric || c == '-' || c == '_' {
        Some(c)
    } else {
        None
    }
}

/// What the slug field keeps of the typed text `raw`: it is lowercased,
/// spaces become `-`, and every other character that is not alphanumeric,
/// `-` or `_` is dropped.
pub fn sanitize_slug(raw: &str) -> (r: String)
    ensures
        r@ == sanitized(lowercase_text(raw@)),
{
    let lower = to_lowercase(raw);
    let text = lower.as_str();
    let n = text.unicode_len();
    let mut out = String::new();
    let mut i: usize = 0;
    while i < n
        invariant
            n == text@.len(),
            text@ == lowercase_text(raw@),
            i <= n,
            out@ == sanitized(text@.take(i as int)),
        decreases n - i,
    {
        let c = text.get_char(i);
        proof {
            assert(text@.take(i as int + 1).drop_last() =~= text@.take(i as int));
            assert(text@.take(i as int + 1).last() == c);
        }
        match slug_char_for(c, is_alphanumeric(c)) {
            Some(d) => {
                push_char(&mut out, d);
                assert(out@ =~= sanitized(text@.take(i as int + 1)));
            },
            None => {
                assert(out@ =~= sanitized(text@.take(i as int + 1)));
            },
        }
        i = i + 1;
    }
    assert(text@.take(n as int) =~= text@);
    out
}

/// The body sent to create or update a status page.
#[derive(Debug, Clone, PartialEq, Eq)]
pub struct StatusPageFormData {
    pub name: String,
    pub description: String,
    pub slug: String,
    pub refresh_interval: u32,
}

/// Checks the status page form and builds its request body: the name and the
/// slug must not be empty; the fields are sent as entered.
pub fn submit_status_page_form(
    name: String,
    description: String,
    slug: String,
    refresh_interval: u32,
) -> (r: Result<StatusPageFormData, String>)
    ensures
        r is Ok <==> (name@.len() > 0 && slug@.len() > 0),
        r matches Err(m) ==> m@ == "Name and slug are required."@,
        r matches Ok(d) ==> (d == StatusPageFormData { name, description, slug, refresh_interval }),
{
    if name.as_str().is_empty() || slug.as_str().is_empty() {
        return Err(String::from_str("Name and slug are required."));
    }
    Ok(StatusPageFormData { name, description, slug, refresh_interval })
}

/// The hint under the slug field: where the page will be published.
pub fn slug_hint(slug: &str) -> (r: String)
    ensures
        slug@.len() == 0 ==> r@ == "The public URL will be /s/<slug>"@,
        slug@.len() > 0 ==> r@ == "Public URL: /s/"@ + slug@,
{
    if slug.is_empty() {
        String::from_str("The public URL will be /s/<slug>")
    } else {
        let mut s = String::from_str("Public URL: /s/");
        push_str(&mut s, slug);
        s
    }
}

/// The line under a status page in the list of pages: its path, how often
/// it refreshes and when it was added (`added` is the date as displayed).
pub fn page_list_meta(slug: &str, refresh_interval: u32, added: &str) -> (r: String)
    ensures
        r@ == "/"@ + slug@ + " \u{b7} refresh every "@ + dec(refresh_interval as nat)
            + "s \u{b7} added "@ + added@,
{
    let mut s = String::from_str("/");
    push_str(&mut s, slug);
    push_str(&mut s, " \u{b7} refresh every ");
    push_decimal(&mut s, refresh_interval as u64);
    push_str(&mut s, "s \u{b7} added ");
    push_str(&mut s, added);
    s
}

/// The line under a status page's title on its own page: its public URL,
/// how often it refreshes and when it was created (`created` is the date as
/// displayed).
pub fn page_detail_meta(slug: &str, refresh_interval: u32, created: &str) -> (r: String)
    ensures
        r@ == "Public URL: /s/"@ + slug@ + "  \u{b7}  refresh every "@ + dec(
            refresh_interval as nat,
        ) + "s  \u{b7}  created "@ + created@,
{
    let mut s = String::from_str("Public URL: /s/");
    push_str(&mut s, slug);
    push_str(&mut s, "  \u{b7}  refresh every ");
    push_decimal(&mut s, refresh_interval as u64);
    push_str(&mut s, "s  \u{b7}  created ");
    push_str(&mut s, created);
    s
}

/// A monitor shown on a status page.
#[derive(Debug, Clone, PartialEq, Eq)]
pub struct StatusPageMonitor {
    pub status_page_id: String,
    pub monitor_id: String,
    pub created_at: String,
}

/// Whether some monitor of `monitors` has the id `id`.
pub open spec fn has_monitor(monitors: Seq<Monitor>, id: Seq<char>) -> bool {
    exists|k: int| 0 <= k < monitors.len() && monitors[k].id@ == id
}

/// The name a status page lists for a link: the name of the first monitor
/// with the linked id, or the id itself when no such monitor is known.
pub fn page_monitor_name(link: &StatusPageMonitor, monitors: &Vec<Monitor>) -> (r: String)
    ensures
        has_monitor(monitors@, link.monitor_id@) ==> exists|k: int|
            0 <= k < monitors@.len() && monitors@[k].id@ == link.monitor_id@ && (forall|j: int|
                0 <= j < k ==> monitors@[j].id@ != link.monitor_id@) && r@ == monitors@[k].name@,
        !has_monitor(monitors@, link.monitor_id@) ==> r@ == link.monitor_id@,
{
    let mut k: usize = 0;
    while k < monitors.len()
        invariant
            k <= monitors.len(),
            forall|j: int| 0 <= j < k ==> monitors@[j].id@ != link.monitor_id@,
        decreases monitors.len() - k,
    {
        if monitors[k].id == link.monitor_id {
            return monitors[k].name.clone();
        }
        k = k + 1;
    }
    link.monitor_id.clone()
}

/// Whether some link of `links` names the monitor with id `id`.
pub open spec fn on_page(links: Seq<StatusPageMonitor>, id: Seq<char>) -> bool {
    exists|j: int| 0 <= j < links.len() && links[j].monitor_id@ == id
}

/// Positions, in order, of the monitors that are not on the page yet.
pub fn available_monitors(monitors: &Vec<Monitor>, links: &Vec<StatusPageMonitor>) -> (r: Vec<
    usize,
>)
    ensures
        forall|k: int| 0 <= k < r@.len() ==> r@[k] < monitors@.len(),
        forall|i: int|
            0 <= i < monitors@.len() ==> (r@.contains(i as usize) <==> !on_page(
                links@,
                #[trigger] monitors@[i].id@,
            )),
        forall|a: int, b: int| 0 <= a < b < r@.len() ==> r@[a] < r@[b],
{
    let mut out: Vec<usize> = Vec::new();
    let mut i: usize = 0;
    while i < monitors.len()
        invariant
            i <= monitors.len(),
            forall|k: int| 0 <= k < out@.len() ==> out@[k] < i,
            forall|a: int, b: int| 0 <= a < b < out@.len() ==> out@[a] < out@[b],
            forall|x: int|
                0 <= x < i ==> (out@.contains(x as usize) <==> !on_page(
                    links@,
                    #[trigger] monitors@[x].id@,
                )),
        decreases monitors.len() - i,
    {
        let mut linked = false;
        let mut j: usize = 0;
        while j < links.len()
            invariant
                j <= links.len(),
                i < monitors.len(),
                linked == exists|q: int|
                    0 <= q < j && links@[q].monitor_id@ == monitors@[i as int].id@,
            decreases links.len() - j,
        {
            if links[j].monitor_id == monitors[i].id {
                linked = true;
            }
            j = j + 1;
        }
        let ghost prev_out = out@;
        if !linked {
            out.push(i);
        }
        proof {
            assert forall|x: int| 0 <= x < i implies (#[trigger] out@.contains(x as usize)
                <==> prev_out.contains(x as usize)) by {
                if prev_out.contains(x as usize) {
                    let k = choose|k: int| 0 <= k < prev_out.len() && prev_out[k] == x as usize;
                    assert(out@[k] == x as usize);
                }
                if out@.contains(x as usize) {
                    let k = choose|k: int| 0 <= k < out@.len() && out@[k] == x as usize;
                    if k < prev_out.len() {
                        assert(prev_out[k] == x as usize);
                    }
                }
            }
            assert forall|x: int|
                0 <= x < i + 1 implies (out@.contains(x as usize) <==> !on_page(
                links@,
                #[trigger] monitors@[x].id@,
            )) by {
                if x == i {
                    if linked {
                        assert(!out@.contains(i));
                    } else {
                        assert(out@[out@.len() - 1] == i);
                    }
                }
            }
        }
        i = i + 1;
    }
    out
}

/// The overall state a public status page announces.
#[derive(Debug, Clone, Copy, PartialEq, Eq, Structural)]
pub enum OverallStatus {
    /// Every monitor is up (also with no monitors).
    AllOperational,
    /// Some monitors are up and some are not.
    PartialOutage,
    /// No monitor is up.
    MajorOutage,
}

/// The overall state of a page whose monitors are up as `is_up` says.
pub fn overall_status(is_up: &Vec<bool>) -> (r: OverallStatus)
    ensures
        r == (if forall|i: int| 0 <= i < is_up@.len() ==> is_up@[i] {
            OverallStatus::AllOperational
        } else if exists|i: int| 0 <= i < is_up@.len() && is_up@[i] {
            OverallStatus::PartialOutage
        } else {
            OverallStatus::MajorOutage
        }),
{
    let mut all_up = true;
    let mut any_up = false;
    let mut i: usize = 0;
    while i < is_up.len()
        invariant
            i <= is_up.len(),
            all_up == (forall|k: int| 0 <= k < i ==> is_up@[k]),
            any_up == (exists|k: int| 0 <= k < i && is_up@[k]),
        decreases is_up.len() - i,
    {
        if is_up[i] {
            any_up = true;
        } else {
            all_up = false;
        }
        i = i + 1;
    }
    if all_up {
        OverallStatus::AllOperational
    } else if any_up {
        OverallStatus::PartialOutage
    } else {
        OverallStatus::MajorOutage
    }
}

/// The banner text of an overall state.
pub fn overall_status_label(s: OverallStatus) -> (r: &'static str)
    ensures
        r@ == (match s {
            OverallStatus::AllOperational => "All Systems Operational"@,
            OverallStatus::PartialOutage => "Partial Outage"@,
            OverallStatus::MajorOutage => "Major Outage"@,
        }),
{
    match s {
        OverallStatus::AllOperational => "All Systems Operational",
        OverallStatus::PartialOutage => "Partial Outage",
        OverallStatus::MajorOutage => "Major Outage",
    }
}

/// The days a downtime bar chart draws: the given minutes, or ninety days
/// without data when there are none.
pub fn sparkline_days(downtime: &Vec<u32>) -> (r: Vec<u32>)
    ensures
        downtime@.len() == 0 ==> r@ == Seq::new(90, |i: int| u32::MAX),
        downtime@.len() > 0 ==> r@ == downtime@,
{
    if downtime.len() == 0 {
        let mut out: Vec<u32> = Vec::new();
        let mut i: usize = 0;
        while i < 90
            invariant
                i <= 90,
                out@ == Seq::new(i as nat, |k: int| u32::MAX),
            decreases 90 - i,
        {
            out.push(u32::MAX);
            i = i + 1;
            assert(out@ =~= Seq::new(i as nat, |k: int| u32::MAX));
        }
        out
    } else {
        downtime.clone()
    }
}

} // verus!
