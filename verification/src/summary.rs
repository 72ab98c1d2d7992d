use vstd::prelude::*;
use crate::model::{
    Incident, Monitor, MonitorCheck, MonitorCheckStatus, MonitorNotification, NotificationChannel,
};
use crate::text::{dec, push_decimal, push_str};

verus! {

/// The badge label of a monitor: paused when disabled, else after its latest
/// check (the first of the newest-first list).
pub fn status_badge_label(enabled: bool, checks: &[MonitorCheck]) -> (r: &'static str)
    ensures
        r@ == (if !enabled {
            "Paused"@
        } else if checks@.len() > 0 && checks@[0].status == MonitorCheckStatus::Up {
            "Operational"@
        } else if checks@.len() > 0 && checks@[0].status == MonitorCheckStatus::Down {
            "Down"@
        } else {
            "Unknown"@
        }),
{
    if !enabled {
        "Paused"
    } else if checks.len() > 0 && checks[0].status == MonitorCheckStatus::Up {
        "Operational"
    } else if checks.len() > 0 && checks[0].status == MonitorCheckStatus::Down {
        "Down"
    } else {
        "Unknown"
    }
}

/// How many of `checks` are up.
pub open spec fn up_count(checks: Seq<MonitorCheck>) -> int
    decreases checks.len(),
{
    if checks.len() == 0 {
        0
    } else {
        up_count(checks.drop_last()) + if checks.last().status == MonitorCheckStatus::Up {
            1int
        } else {
            0int
        }
    }
}

/// `up_count` counts exactly the checks that are up.
pub proof fn lemma_up_count_counts(checks: Seq<MonitorCheck>)
    ensures
        up_count(checks) == checks.filter(|c: MonitorCheck| c.status == MonitorCheckStatus::Up).len(),
    decreases checks.len(),
{
    reveal(Seq::filter);
    if checks.len() > 0 {
        lemma_up_count_counts(checks.drop_last());
    }
}

/// Counts the checks that were up.
pub fn count_up(checks: &[MonitorCheck]) -> (r: usize)
    ensures
        r == up_count(checks@),
{
    let mut c: usize = 0;
    let mut i: usize = 0;
    while i < checks.len()
        invariant
            i <= checks.len(),
            c == up_count(checks@.take(i as int)),
            c <= i,
        decreases checks.len() - i,
    {
        proof {
            assert(checks@.take(i as int + 1).drop_last() =~= checks@.take(i as int));
        }
        if checks[i].status == MonitorCheckStatus::Up {
            c = c + 1;
        }
        i = i + 1;
    }
    assert(checks@.take(checks.len() as int) =~= checks@);
    c
}

/// Sum of the response times of `checks`.
pub open spec fn total_response(checks: Seq<MonitorCheck>) -> int
    decreases checks.len(),
{
    if checks.len() == 0 {
        0
    } else {
        total_response(checks.drop_last()) + checks.last().response_time_ms
    }
}

/// The total response time of no checks is zero, of one check its own
/// response time, and of two lists put together the sum of their totals.
pub proof fn lemma_total_response_sums(a: Seq<MonitorCheck>, b: Seq<MonitorCheck>)
    ensures
        total_response(Seq::<MonitorCheck>::empty()) == 0,
        a.len() == 1 ==> total_response(a) == a[0].response_time_ms,
        total_response(a + b) == total_response(a) + total_response(b),
    decreases b.len(),
{
    if a.len() == 1 {
        assert(a.drop_last() =~= Seq::<MonitorCheck>::empty());
        assert(total_response(a.drop_last()) == 0);
        assert(a.last() == a[0]);
    }
    if b.len() > 0 {
        lemma_total_response_sums(a, b.drop_last());
        assert((a + b).drop_last() =~= a + b.drop_last());
    } else {
        assert(a + b =~= a);
    }
}

proof fn lemma_total_prefix(checks: Seq<MonitorCheck>, k: int)
    requires
        0 <= k <= checks.len(),
    ensures
        0 <= total_response(checks.take(k)) <= total_response(checks),
    decreases checks.len() - k,
{
    lemma_total_nonneg(checks.take(k));
    if k < checks.len() {
        lemma_total_prefix(checks, k + 1);
        assert(checks.take(k + 1).drop_last() =~= checks.take(k));
    } else {
        assert(checks.take(k) =~= checks);
        lemma_total_nonneg(checks);
    }
}

proof fn lemma_total_nonneg(checks: Seq<MonitorCheck>)
    ensures
        total_response(checks) >= 0,
    decreases checks.len(),
{
    if checks.len() > 0 {
        lemma_total_nonneg(checks.drop_last());
    }
}

/// The mean response time of `checks` (rounded down), or `None` without
/// checks.
pub fn average_response_ms(checks: &[MonitorCheck]) -> (r: Option<u64>)
    requires
        total_response(checks@) <= u64::MAX,
    ensures
        checks@.len() == 0 ==> r is None,
        checks@.len() > 0 ==> r == Some((total_response(checks@) / (checks@.len() as int)) as u64),
        r matches Some(a) ==> a * checks@.len() <= total_response(checks@) < (a + 1)
            * checks@.len(),
{
    if checks.len() == 0 {
        return None;
    }
    let mut total: u64 = 0;
    let mut i: usize = 0;
    while i < checks.len()
        invariant
            i <= checks.len(),
            total_response(checks@) <= u64::MAX,
            total as int == total_response(checks@.take(i as int)),
        decreases checks.len() - i,
    {
        proof {
            assert(checks@.take(i as int + 1).drop_last() =~= checks@.take(i as int));
            lemma_total_prefix(checks@, i as int + 1);
        }
        total = total + checks[i].response_time_ms;
        i = i + 1;
    }
    assert(checks@.take(checks.len() as int) =~= checks@);
    let a = total / checks.len() as u64;
    proof {
        let n = checks@.len() as int;
        let t = total as int;
        vstd::arithmetic::div_mod::lemma_fundamental_div_mod(t, n);
        assert(0 <= t % n < n) by {
            vstd::arithmetic::div_mod::lemma_mod_bound(t, n);
        }
        assert(a * n <= t < (a + 1) * n) by (nonlinear_arith)
            requires
                t == n * (t / n) + t % n,
                0 <= t % n < n,
                a == t / n,
        ;
    }
    Some(a)
}

/// Position of the first incident that is still open.
pub fn active_incident(incidents: &[Incident]) -> (r: Option<usize>)
    ensures
        r matches Some(k) ==> k < incidents@.len() && incidents@[k as int].resolved_at is None
            && forall|j: int| 0 <= j < k ==> incidents@[j].resolved_at is Some,
        r is None ==> forall|j: int| 0 <= j < incidents@.len() ==> incidents@[j].resolved_at is Some,
{
    let mut i: usize = 0;
    while i < incidents.len()
        invariant
            i <= incidents.len(),
            forall|j: int| 0 <= j < i ==> incidents@[j].resolved_at is Some,
        decreases incidents.len() - i,
    {
        if incidents[i].resolved_at.is_none() {
            return Some(i);
        }
        i = i + 1;
    }
    None
}

/// Whether an incident of `incs` is still open.
pub open spec fn has_open(incs: Seq<Incident>) -> bool {
    exists|j: int| 0 <= j < incs.len() && incs[j].resolved_at is None
}

/// How many of the monitors' newest-first check lists start with an up
/// check, and how many start with a check that is not up.
pub open spec fn tally(cs: Seq<Vec<MonitorCheck>>) -> (int, int)
    decreases cs.len(),
{
    if cs.len() == 0 {
        (0, 0)
    } else {
        let t = tally(cs.drop_last());
        let last = cs.last()@;
        if last.len() == 0 {
            t
        } else if last[0].status == MonitorCheckStatus::Up {
            (t.0 + 1, t.1)
        } else {
            (t.0, t.1 + 1)
        }
    }
}

/// The up tally counts exactly the monitors whose newest check (the first of
/// their newest-first list) is up, and the down tally exactly those whose
/// newest check is not up; monitors without checks count in neither.
pub proof fn lemma_tally_counts_newest(cs: Seq<Vec<MonitorCheck>>)
    ensures
        tally(cs).0 == cs.filter(
            |v: Vec<MonitorCheck>| v@.len() > 0 && v@[0].status == MonitorCheckStatus::Up,
        ).len(),
        tally(cs).1 == cs.filter(
            |v: Vec<MonitorCheck>| v@.len() > 0 && v@[0].status != MonitorCheckStatus::Up,
        ).len(),
    decreases cs.len(),
{
    reveal(Seq::filter);
    if cs.len() > 0 {
        lemma_tally_counts_newest(cs.drop_last());
    }
}

/// The dashboard's tallies over monitors (paired with their newest-first
/// checks and their incidents, up to the shorter list): monitors whose latest
/// check is up, monitors whose latest check is not up, and, in order, the
/// monitors with an open incident.
pub fn dashboard_summary(checks: &Vec<Vec<MonitorCheck>>, incidents: &Vec<Vec<Incident>>) -> (r: (
    usize,
    usize,
    Vec<usize>,
))
    ensures
        ({
            let n = if checks@.len() <= incidents@.len() {
                checks@.len()
            } else {
                incidents@.len()
            };
            &&& (r.0 as int, r.1 as int) == tally(checks@.take(n as int))
            &&& forall|k: int|
                0 <= k < r.2@.len() ==> r.2@[k] < n && has_open(incidents@[r.2@[k] as int]@)
            &&& forall|i: int|
                0 <= i < n && #[trigger] has_open(incidents@[i]@) ==> r.2@.contains(i as usize)
            &&& forall|a: int, b: int| 0 <= a < b < r.2@.len() ==> r.2@[a] < r.2@[b]
        }),
{
    let n = if checks.len() <= incidents.len() {
        checks.len()
    } else {
        incidents.len()
    };
    let mut up: usize = 0;
    let mut down: usize = 0;
    let mut active: Vec<usize> = Vec::new();
    let mut i: usize = 0;
    while i < n
        invariant
            i <= n,
            n <= checks.len(),
            n <= incidents.len(),
            (up as int, down as int) == tally(checks@.take(i as int)),
            up + down <= i,
            forall|k: int|
                0 <= k < active@.len() ==> active@[k] < i && has_open(
                    incidents@[active@[k] as int]@,
                ),
            forall|x: int|
                0 <= x < i && #[trigger] has_open(incidents@[x]@) ==> active@.contains(x as usize),
            forall|a: int, b: int| 0 <= a < b < active@.len() ==> active@[a] < active@[b],
        decreases n - i,
    {
        proof {
            assert(checks@.take(i as int + 1).drop_last() =~= checks@.take(i as int));
        }
        let mc = &checks[i];
        if mc.len() > 0 {
            if mc[0].status == MonitorCheckStatus::Up {
                up = up + 1;
            } else {
                down = down + 1;
            }
        }
        let found = active_incident(incidents[i].as_slice());
        let ghost prev_active = active@;
        if found.is_some() {
            active.push(i);
        }
        proof {
            assert forall|k: int|
                0 <= k < active@.len() implies active@[k] < i + 1 && has_open(
                incidents@[active@[k] as int]@,
            ) by {
                if k < prev_active.len() {
                    assert(active@[k] == prev_active[k]);
                }
            }
            assert forall|x: int|
                0 <= x < i + 1 && #[trigger] has_open(incidents@[x]@) implies active@.contains(
                x as usize,
            ) by {
                if x < i {
                    let k = choose|k: int| 0 <= k < prev_active.len() && prev_active[k] == x as usize;
                    assert(active@[k] == x as usize);
                } else {
                    assert(active@[active@.len() - 1] == i);
                }
            }
        }
        i = i + 1;
    }
    (up, down, active)
}

/// Whether some link of `notifs` points at the channel with id `id`.
pub open spec fn linked(notifs: Seq<MonitorNotification>, id: Seq<char>) -> bool {
    exists|j: int| 0 <= j < notifs.len() && notifs[j].channel_id@ == id
}

/// Positions of the channels that a monitor is not linked to yet.
pub fn available_channels(
    channels: &Vec<NotificationChannel>,
    notifications: &Vec<MonitorNotification>,
) -> (r: Vec<usize>)
    ensures
        forall|k: int| 0 <= k < r@.len() ==> r@[k] < channels@.len(),
        forall|i: int|
            0 <= i < channels@.len() ==> (r@.contains(i as usize) <==> !linked(
                notifications@,
                #[trigger] channels@[i].id@,
            )),
        forall|a: int, b: int| 0 <= a < b < r@.len() ==> r@[a] < r@[b],
{
    let mut out: Vec<usize> = Vec::new();
    let mut i: usize = 0;
    while i < channels.len()
        invariant
            i <= channels.len(),
            forall|k: int| 0 <= k < out@.len() ==> out@[k] < i,
            forall|a: int, b: int| 0 <= a < b < out@.len() ==> out@[a] < out@[b],
            forall|x: int|
                0 <= x < i ==> (out@.contains(x as usize) <==> !linked(
                    notifications@,
                    #[trigger] channels@[x].id@,
                )),
        decreases channels.len() - i,
    {
        let mut is_linked = false;
        let mut j: usize = 0;
        while j < notifications.len()
            invariant
                j <= notifications.len(),
                i < channels.len(),
                is_linked == exists|q: int|
                    0 <= q < j && notifications@[q].channel_id@ == channels@[i as int].id@,
            decreases notifications.len() - j,
        {
            if notifications[j].channel_id == channels[i].id {
                is_linked = true;
            }
            j = j + 1;
        }
        let ghost prev_out = out@;
        if !is_linked {
            out.push(i);
        }
        proof {
            assert forall|x: int| 0 <= x < i implies (#[trigger] out@.contains(x as usize)
                <==> prev_out.contains(x as usize)) by {
                if prev_out.contains(x as usize) {
                    let k = choose|k: int| 0 <= k < prev_out.len() && prev_out[k] == x as usize;
                    assert(out@[k] == x as usize);
                }
                if out@.contains(x as usize) {
                    let k = choose|k: int| 0 <= k < out@.len() && out@[k] == x as usize;
                    if k < prev_out.len() {
                        assert(prev_out[k] == x as usize);
                    }
                }
            }
            assert forall|x: int|
                0 <= x < i + 1 implies (out@.contains(x as usize) <==> !linked(
                notifications@,
                #[trigger] channels@[x].id@,
            )) by {
                if x < i {
                } else {
                    if is_linked {
                        assert(!out@.contains(i));
                    } else {
                        assert(out@[out@.len() - 1] == i);
                    }
                }
            }
        }
        i = i + 1;
    }
    out
}

/// The colour of a monitor card's status dot.
#[derive(Debug, Clone, Copy, PartialEq, Eq, Structural)]
pub enum DotState {
    Up,
    Down,
    Unknown,
}

/// The status a card shows: the live status from the event stream when there
/// is one, else that of the latest loaded check.
pub open spec fn effective_status(live: Option<MonitorCheckStatus>, checks: Seq<MonitorCheck>) -> Option<
    MonitorCheckStatus,
> {
    match live {
        Some(s) => Some(s),
        None => if checks.len() > 0 {
            Some(checks[0].status)
        } else {
            None
        },
    }
}

/// The status dot of a monitor card: unknown while the monitor is paused or
/// has no status yet.
pub fn card_dot(enabled: bool, live: Option<MonitorCheckStatus>, checks: &[MonitorCheck]) -> (r:
    DotState)
    ensures
        r == (if !enabled {
            DotState::Unknown
        } else {
            match effective_status(live, checks@) {
                Some(MonitorCheckStatus::Up) => DotState::Up,
                Some(MonitorCheckStatus::Down) => DotState::Down,
                None => DotState::Unknown,
            }
        }),
{
    if !enabled {
        return DotState::Unknown;
    }
    let status = match live {
        Some(s) => Some(s),
        None => if checks.len() > 0 {
            Some(checks[0].status)
        } else {
            None
        },
    };
    match status {
        Some(MonitorCheckStatus::Up) => DotState::Up,
        Some(MonitorCheckStatus::Down) => DotState::Down,
        None => DotState::Unknown,
    }
}

/// The response time a monitor card shows, with its caption: the live
/// 30-day median when there is one, else the mean of the loaded checks.
pub fn card_response(live_p50: Option<u64>, checks: &[MonitorCheck]) -> (r: (Option<u64>, &'static str))
    requires
        live_p50 is None ==> total_response(checks@) <= u64::MAX,
    ensures
        live_p50 matches Some(p) ==> r.0 == Some(p) && r.1@ == "p50 30d"@,
        live_p50 is None && checks@.len() == 0 ==> r.0 is None && r.1@ == "avg resp."@,
        live_p50 is None && checks@.len() > 0 ==> r.0 == Some(
            (total_response(checks@) / (checks@.len() as int)) as u64,
        ) && r.1@ == "avg resp."@,
{
    match live_p50 {
        Some(p) => (Some(p), "p50 30d"),
        None => (average_response_ms(checks), "avg resp."),
    }
}

/// The refresh line of the monitors page: how many monitors are shown.
pub fn live_label(count: usize) -> (r: String)
    ensures
        r@ == "Live \u{b7} "@ + dec(count as nat) + " monitor"@ + (if count != 1 {
            "s"@
        } else {
            Seq::<char>::empty()
        }),
{
    let mut s = String::from_str("Live \u{b7} ");
    push_decimal(&mut s, count as u64);
    push_str(&mut s, " monitor");
    if count != 1 {
        push_str(&mut s, "s");
    }
    proof {
        if count == 1 {
            assert(s@ =~= s@ + Seq::<char>::empty());
        }
    }
    s
}

/// The heading over the active incidents of the dashboard.
pub fn active_incidents_label(count: usize) -> (r: String)
    ensures
        r@ == dec(count as nat) + " active incident"@ + (if count > 1 {
            "s"@
        } else {
            Seq::<char>::empty()
        }),
{
    let mut s = String::new();
    push_decimal(&mut s, count as u64);
    push_str(&mut s, " active incident");
    if count > 1 {
        push_str(&mut s, "s");
    }
    proof {
        assert(Seq::<char>::empty() + dec(count as nat) =~= dec(count as nat));
        if count <= 1 {
            assert(s@ =~= s@ + Seq::<char>::empty());
        }
    }
    s
}

/// The pause button's label and the edit link of a monitor's page.
pub fn monitor_page_actions(m: &Monitor) -> (r: (&'static str, String))
    ensures
        r.0@ == (if m.enabled {
            "Pause"@
        } else {
            "Resume"@
        }),
        r.1@ == "/create?id="@ + m.id@,
{
    let label = if m.enabled {
        "Pause"
    } else {
        "Resume"
    };
    let mut href = String::from_str("/create?id=");
    push_str(&mut href, m.id.as_str());
    (label, href)
}

/// The height, in percent, of a check's bar in a monitor card: a failed
/// check is a short bar; an up check is shorter the slower it answered
/// (one percent per 30 ms), between 20 and 100.
pub open spec fn bar_height(c: MonitorCheck) -> u64 {
    if c.status == MonitorCheckStatus::Up {
        let d = c.response_time_ms / 30;
        if d >= 80 {
            20
        } else {
            (100 - d) as u64
        }
    } else {
        15
    }
}

/// The bars of a monitor card's sparkline: the oldest (at most) thirty of
/// the newest-first `checks`, oldest first, each with its up flag and height.
pub fn sparkline_bars(checks: &[MonitorCheck]) -> (r: Vec<(bool, u64)>)
    ensures
        r@.len() == (if checks@.len() < 30 {
            checks@.len() as int
        } else {
            30
        }),
        forall|k: int|
            0 <= k < r@.len() ==> #[trigger] r@[k] == (
                checks@[checks@.len() - 1 - k].status == MonitorCheckStatus::Up,
                bar_height(checks@[checks@.len() - 1 - k]),
            ),
{
    let n = checks.len();
    let mut out: Vec<(bool, u64)> = Vec::new();
    let mut k: usize = 0;
    while k < n && k < 30
        invariant
            n == checks@.len(),
            k <= n,
            k <= 30,
            out@.len() == k,
            forall|j: int|
                0 <= j < k ==> #[trigger] out@[j] == (
                    checks@[n - 1 - j].status == MonitorCheckStatus::Up,
                    bar_height(checks@[n - 1 - j]),
                ),
        decreases n - k,
    {
        let c = &checks[n - 1 - k];
        let up = c.status == MonitorCheckStatus::Up;
        let h: u64 = if up {
            let d = c.response_time_ms / 30;
            let raw = if d >= 100 {
                0
            } else {
                100 - d
            };
            if raw < 20 {
                20
            } else if raw > 100 {
                100
            } else {
                raw
            }
        } else {
            15
        };
        out.push((up, h));
        k = k + 1;
    }
    out
}

/// The status line of a check's tooltip: its HTTP status, or that there was
/// no response.
pub fn tooltip_code(status_code: Option<u16>) -> (r: String)
    ensures
        match status_code {
            Some(s) => r@ == "HTTP "@ + dec(s as nat),
            None => r@ == "no response"@,
        },
{
    match status_code {
        Some(s) => crate::error::http_status_error(s),
        None => String::from_str("no response"),
    }
}

} // verus!
