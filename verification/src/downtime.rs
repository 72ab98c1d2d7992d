use vstd::prelude::*;

verus! {

/// Nanoseconds in one second.
pub const NANOS_PER_SEC: i64 = 1_000_000_000;

/// Nanoseconds in one UTC calendar day.
pub const NANOS_PER_DAY: i64 = 86_400_000_000_000;

/// Number of calendar days a public status page shows.
pub const HISTORY_DAYS: usize = 90;

/// An incident window, in nanoseconds since the Unix epoch (UTC); an open
/// incident has no `resolved_at`.
#[derive(Debug, Clone, Copy, PartialEq, Eq, Structural)]
pub struct IncidentWindow {
    pub started_at: i64,
    pub resolved_at: Option<i64>,
}

/// Start of the UTC calendar day `days_ago` days before the day holding `now`.
pub open spec fn day_start(now: int, days_ago: int) -> int {
    (now / (NANOS_PER_DAY as int) - days_ago) * (NANOS_PER_DAY as int)
}

pub open spec fn spec_max(a: int, b: int) -> int {
    if a >= b {
        a
    } else {
        b
    }
}

pub open spec fn spec_min(a: int, b: int) -> int {
    if a <= b {
        a
    } else {
        b
    }
}

/// Whole minutes (of whole seconds) that `inc`, still open at `now` if it has
/// no end, overlaps the interval `[start, end)`.
pub open spec fn overlap_minutes(inc: IncidentWindow, now: int, start: int, end: int) -> int {
    let inc_end = match inc.resolved_at {
        Some(r) => r as int,
        None => now,
    };
    let lo = spec_max(inc.started_at as int, start);
    let hi = spec_min(inc_end, end);
    if hi > lo {
        ((hi - lo) / (NANOS_PER_SEC as int)) / 60
    } else {
        0
    }
}

/// Total downtime minutes that `incs` add up to on the day starting at `start`.
pub open spec fn day_minutes(incs: Seq<IncidentWindow>, now: int, start: int) -> int
    decreases incs.len(),
{
    if incs.len() == 0 {
        0
    } else {
        day_minutes(incs.drop_last(), now, start) + overlap_minutes(
            incs.last(),
            now,
            start,
            start + NANOS_PER_DAY,
        )
    }
}

/// One incident never counts more than the whole day: at most 1440 minutes
/// on any calendar day.
pub proof fn lemma_overlap_bounds(inc: IncidentWindow, now: int, start: int)
    ensures
        0 <= overlap_minutes(inc, now, start, start + NANOS_PER_DAY) <= 1440,
{
    let inc_end = match inc.resolved_at {
        Some(r) => r as int,
        None => now,
    };
    let lo = spec_max(inc.started_at as int, start);
    let hi = spec_min(inc_end, start + NANOS_PER_DAY);
    if hi > lo {
        assert(hi - lo <= NANOS_PER_DAY);
        assert((hi - lo) / (NANOS_PER_SEC as int) <= 86400) by (nonlinear_arith)
            requires
                hi - lo <= 86_400_000_000_000,
                hi - lo > 0,
        ;
    }
}

proof fn lemma_day_minutes_nonneg(incs: Seq<IncidentWindow>, now: int, start: int)
    ensures
        day_minutes(incs, now, start) >= 0,
    decreases incs.len(),
{
    if incs.len() > 0 {
        lemma_day_minutes_nonneg(incs.drop_last(), now, start);
        lemma_overlap_bounds(incs.last(), now, start);
    }
}

/// Minutes that one incident overlaps the UTC day starting at `start`.
fn incident_overlap_minutes(inc: &IncidentWindow, now: i64, start: i64) -> (r: u32)
    requires
        start as int + NANOS_PER_DAY as int <= i64::MAX,
    ensures
        r as int == overlap_minutes(*inc, now as int, start as int, start + NANOS_PER_DAY),
{
    proof {
        lemma_overlap_bounds(*inc, now as int, start as int);
    }
    let end = start + NANOS_PER_DAY;
    let inc_end = match inc.resolved_at {
        Some(r) => r,
        None => now,
    };
    let lo = if inc.started_at >= start {
        inc.started_at
    } else {
        start
    };
    let hi = if inc_end <= end {
        inc_end
    } else {
        end
    };
    if hi > lo {
        let secs = (hi - lo) / NANOS_PER_SEC;
        (secs / 60) as u32
    } else {
        0
    }
}

/// Downtime minutes on the UTC day starting at `start`, summed over `incs`.
fn minutes_on_day(incs: &Vec<IncidentWindow>, now: i64, start: i64) -> (r: u32)
    requires
        start as int + NANOS_PER_DAY as int <= i64::MAX,
        day_minutes(incs@, now as int, start as int) <= u32::MAX,
    ensures
        r as int == day_minutes(incs@, now as int, start as int),
{
    let mut total: u32 = 0;
    let mut i: usize = 0;
    while i < incs.len()
        invariant
            i <= incs.len(),
            start as int + NANOS_PER_DAY as int <= i64::MAX,
            day_minutes(incs@, now as int, start as int) <= u32::MAX,
            total as int == day_minutes(incs@.take(i as int), now as int, start as int),
        decreases incs.len() - i,
    {
        let m = incident_overlap_minutes(&incs[i], now, start);
        proof {
            let pre = incs@.take(i as int + 1);
            assert(pre.drop_last() == incs@.take(i as int));
            assert(pre.last() == incs@[i as int]);
            lemma_prefix_le(incs@, i as int + 1, now as int, start as int);
        }
        total = total + m;
        i = i + 1;
    }
    proof {
        assert(incs@.take(incs.len() as int) == incs@);
    }
    total
}

/// The sum over a prefix never exceeds the sum over the whole sequence.
proof fn lemma_prefix_le(incs: Seq<IncidentWindow>, k: int, now: int, start: int)
    requires
        0 <= k <= incs.len(),
    ensures
        day_minutes(incs.take(k), now, start) <= day_minutes(incs, now, start),
    decreases incs.len() - k,
{
    if k < incs.len() {
        lemma_prefix_le(incs, k + 1, now, start);
        let pre = incs.take(k + 1);
        assert(pre.drop_last() == incs.take(k));
        lemma_overlap_bounds(pre.last(), now, start);
    } else {
        assert(incs.take(k) == incs);
    }
}

/// The smallest timestamp for which [`day_downtime_minutes`] is defined.
pub open spec fn history_min() -> int {
    i64::MIN + 91 * (NANOS_PER_DAY as int)
}

/// Downtime minutes for each of the last 90 UTC calendar days: index 0 is
/// the day 89 days before the day of `now`, index 89 is today. An incident
/// that is still open counts as down until `now`.
pub fn day_downtime_minutes(incidents: &Vec<IncidentWindow>, now: i64) -> (r: Vec<u32>)
    requires
        history_min() <= now,
        now as int <= i64::MAX - NANOS_PER_DAY,
        forall|d: int|
            0 <= d < 90 ==> #[trigger] day_minutes(incidents@, now as int, day_start(now as int, d))
                <= u32::MAX,
    ensures
        r.len() == HISTORY_DAYS,
        forall|i: int|
            0 <= i < 90 ==> r[i] as int == day_minutes(
                incidents@,
                now as int,
                day_start(now as int, 89 - i),
            ),
{
    let today = if now >= 0 {
        (now / NANOS_PER_DAY) * NANOS_PER_DAY
    } else {
        let p = -(now + 1);
        (-(p / NANOS_PER_DAY) - 1) * NANOS_PER_DAY
    };
    proof {
        if now < 0 {
            let p = -(now + 1);
            let n = now as int;
            let q = p as int;
            assert(n / 86_400_000_000_000int == -(q / 86_400_000_000_000int) - 1) by (nonlinear_arith)
                requires
                    q == -(n + 1),
                    q >= 0,
            ;
        }
    }
    let mut out: Vec<u32> = Vec::new();
    let mut k: usize = 0;
    while k < HISTORY_DAYS
        invariant
            k <= HISTORY_DAYS,
            out.len() == k,
            today as int == day_start(now as int, 0),
            history_min() <= now,
            now as int <= i64::MAX - NANOS_PER_DAY,
            forall|d: int|
                0 <= d < 90 ==> #[trigger] day_minutes(
                    incidents@,
                    now as int,
                    day_start(now as int, d),
                ) <= u32::MAX,
            forall|i: int|
                0 <= i < k ==> out[i] as int == day_minutes(
                    incidents@,
                    now as int,
                    day_start(now as int, 89 - i),
                ),
        decreases HISTORY_DAYS - k,
    {
        let days_ago: i64 = 89 - k as i64;
        proof {
            assert(day_start(now as int, days_ago as int) == day_start(now as int, 0) - days_ago
                * NANOS_PER_DAY) by (nonlinear_arith);
        }
        let start = today - days_ago * NANOS_PER_DAY;
        let m = minutes_on_day(incidents, now, start);
        out.push(m);
        k = k + 1;
    }
    out
}

/// Whether every incident has been resolved (the monitor is shown as up).
pub fn all_resolved(incidents: &Vec<IncidentWindow>) -> (r: bool)
    ensures
        r == (forall|i: int| 0 <= i < incidents.len() ==> incidents[i].resolved_at is Some),
{
    let mut i: usize = 0;
    while i < incidents.len()
        invariant
            i <= incidents.len(),
            forall|j: int| 0 <= j < i ==> incidents[j].resolved_at is Some,
        decreases incidents.len() - i,
    {
        if incidents[i].resolved_at.is_none() {
            return false;
        }
        i = i + 1;
    }
    true
}

} // verus!
