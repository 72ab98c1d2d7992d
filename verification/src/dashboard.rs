use vstd::prelude::*;
use crate::model::{Monitor, MonitorCheck, MonitorConfig};

verus! {

/// The URL a monitor checks.
pub fn monitor_url(m: &Monitor) -> (r: &str)
    ensures
        r@ == (match m.config {
            MonitorConfig::Http { url, .. } => url@,
        }),
{
    match &m.config {
        MonitorConfig::Http { url, .. } => url.as_str(),
    }
}

/// The HTTP method a monitor uses, `GET` when none is configured.
pub fn monitor_method(m: &Monitor) -> (r: String)
    ensures
        r@ == (match m.config {
            MonitorConfig::Http { method, .. } => match method {
                Some(x) => x@,
                None => "GET"@,
            },
        }),
{
    match &m.config {
        MonitorConfig::Http { method, .. } => match method {
            Some(x) => x.clone(),
            None => String::from_str("GET"),
        },
    }
}

/// Length of the run of checks at the front of `checks` that share the
/// status of the first one.
pub open spec fn streak(checks: Seq<MonitorCheck>, i: int) -> int
    decreases checks.len() - i,
{
    if i < 0 || i >= checks.len() || checks[i].status != checks[0].status {
        0
    } else {
        1 + streak(checks, i + 1)
    }
}

/// The streak from position `i` is the length of the run of checks from `i`
/// on that share the newest check's status: every check of the run has that
/// status, and the run ends at the end of the list or at a check whose status
/// differs.
pub proof fn lemma_streak_is_run(checks: Seq<MonitorCheck>, i: int)
    requires
        0 <= i <= checks.len(),
    ensures
        ({
            let k = streak(checks, i);
            &&& 0 <= k <= checks.len() - i
            &&& forall|j: int| i <= j < i + k ==> #[trigger] checks[j].status == checks[0].status
            &&& i + k == checks.len() || checks[i + k].status != checks[0].status
        }),
    decreases checks.len() - i,
{
    if i < checks.len() && checks[i].status == checks[0].status {
        lemma_streak_is_run(checks, i + 1);
    }
}

/// How many of the most recent checks (the list is newest first) have the
/// same status as the latest one.
pub fn calc_streak(checks: &[MonitorCheck]) -> (r: usize)
    ensures
        r == streak(checks@, 0),
{
    if checks.len() == 0 {
        return 0;
    }
    let status = checks[0].status;
    let mut i: usize = 0;
    while i < checks.len() && checks[i].status == status
        invariant
            i <= checks.len(),
            status == checks@[0].status,
            streak(checks@, 0) == i + streak(checks@, i as int),
        decreases checks.len() - i,
    {
        i = i + 1;
    }
    i
}

/// How many values of `s` are below `v`.
pub open spec fn count_lt(s: Seq<u64>, v: u64) -> int
    decreases s.len(),
{
    if s.len() == 0 {
        0
    } else {
        count_lt(s.drop_last(), v) + if s.last() < v {
            1int
        } else {
            0int
        }
    }
}

/// How many values of `s` are at most `v`.
pub open spec fn count_le(s: Seq<u64>, v: u64) -> int
    decreases s.len(),
{
    if s.len() == 0 {
        0
    } else {
        count_le(s.drop_last(), v) + if s.last() <= v {
            1int
        } else {
            0int
        }
    }
}

/// `count_lt` and `count_le` count exactly the values below, and at most,
/// the given one.
pub proof fn lemma_counts_are_filters(s: Seq<u64>, v: u64)
    ensures
        count_lt(s, v) == s.filter(|x: u64| x < v).len(),
        count_le(s, v) == s.filter(|x: u64| x <= v).len(),
    decreases s.len(),
{
    reveal(Seq::filter);
    if s.len() > 0 {
        lemma_counts_are_filters(s.drop_last(), v);
    }
}

/// `v` is the value at position `k` (from zero) of `s` sorted ascending.
pub open spec fn is_order_statistic(s: Seq<u64>, k: int, v: u64) -> bool {
    s.contains(v) && count_lt(s, v) <= k < count_le(s, v)
}

/// Response times of `checks`, in order.
pub open spec fn response_times(checks: Seq<MonitorCheck>) -> Seq<u64> {
    checks.map_values(|c: MonitorCheck| c.response_time_ms)
}

/// The position of the 95th percentile among `n` sorted values.
pub open spec fn p95_index(n: int) -> int {
    let k = n * 95 / 100;
    if k < n - 1 {
        k
    } else {
        n - 1
    }
}

/// The response times are the checks' response times, one for one.
pub proof fn lemma_response_times_one_for_one(checks: Seq<MonitorCheck>)
    ensures
        response_times(checks).len() == checks.len(),
        forall|i: int|
            0 <= i < checks.len() ==> #[trigger] response_times(checks)[i]
                == checks[i].response_time_ms,
{
}

/// The 95th-percentile position among `n` values is the largest position
/// at or below 95% of `n`, kept inside the list: `100 * k <= 95 * n`, and
/// either `k` is the last position or `95 * n < 100 * (k + 1)`.
pub proof fn lemma_p95_index_position(n: int)
    requires
        n >= 1,
    ensures
        0 <= p95_index(n) <= n - 1,
        100 * p95_index(n) <= 95 * n,
        p95_index(n) == n - 1 || 95 * n < 100 * (p95_index(n) + 1),
{
}

proof fn lemma_counts_bounds(s: Seq<u64>, v: u64)
    ensures
        0 <= count_lt(s, v) <= count_le(s, v) <= s.len(),
    decreases s.len(),
{
    if s.len() > 0 {
        lemma_counts_bounds(s.drop_last(), v);
    }
}

proof fn lemma_count_le_all(s: Seq<u64>, v: u64)
    requires
        forall|i: int| 0 <= i < s.len() ==> s[i] <= v,
    ensures
        count_le(s, v) == s.len(),
    decreases s.len(),
{
    if s.len() > 0 {
        lemma_count_le_all(s.drop_last(), v);
    }
}

proof fn lemma_count_lt_none(s: Seq<u64>, v: u64)
    requires
        forall|i: int| 0 <= i < s.len() ==> s[i] >= v,
    ensures
        count_lt(s, v) == 0,
    decreases s.len(),
{
    if s.len() > 0 {
        lemma_count_lt_none(s.drop_last(), v);
    }
}

/// With no value strictly between `a` and `b`, counting below `b` is counting
/// up to `a`.
proof fn lemma_count_gap(s: Seq<u64>, a: u64, b: u64)
    requires
        a < b,
        forall|i: int| 0 <= i < s.len() ==> !(a < #[trigger] s[i] < b),
    ensures
        count_lt(s, b) == count_le(s, a),
    decreases s.len(),
{
    if s.len() > 0 {
        lemma_count_gap(s.drop_last(), a, b);
    }
}

/// When fewer than all values are at most `v`, some value is above it.
proof fn lemma_some_above(s: Seq<u64>, v: u64)
    requires
        count_le(s, v) < s.len(),
    ensures
        exists|i: int| 0 <= i < s.len() && s[i] > v,
    decreases s.len(),
{
    if s.last() > v {
        assert(s[s.len() - 1] > v);
    } else {
        lemma_some_above(s.drop_last(), v);
        let i = choose|i: int| 0 <= i < s.len() - 1 && s.drop_last()[i] > v;
        assert(s[i] > v);
    }
}

fn count_below(times: &Vec<u64>, v: u64, inclusive: bool) -> (r: usize)
    ensures
        r as int == (if inclusive {
            count_le(times@, v)
        } else {
            count_lt(times@, v)
        }),
{
    let mut c: usize = 0;
    let mut i: usize = 0;
    while i < times.len()
        invariant
            i <= times.len(),
            c as int == (if inclusive {
                count_le(times@.take(i as int), v)
            } else {
                count_lt(times@.take(i as int), v)
            }),
            c <= i,
        decreases times.len() - i,
    {
        proof {
            assert(times@.take(i as int + 1).drop_last() =~= times@.take(i as int));
        }
        if (inclusive && times[i] <= v) || (!inclusive && times[i] < v) {
            c = c + 1;
        }
        i = i + 1;
    }
    assert(times@.take(times.len() as int) =~= times@);
    c
}

/// The 95th percentile response time of `checks`: the value at position
/// `min(len * 95 / 100, len - 1)` of the sorted response times, or `None`
/// for no checks.
pub fn calc_p95(checks: &[MonitorCheck]) -> (r: Option<u64>)
    requires
        checks.len() < 0x20_0000_0000_0000,
    ensures
        checks.len() == 0 <==> r is None,
        r matches Some(v) ==> is_order_statistic(
            response_times(checks@),
            p95_index(checks.len() as int),
            v,
        ),
{
    let n = checks.len();
    if n == 0 {
        return None;
    }
    let mut times: Vec<u64> = Vec::new();
    let mut i: usize = 0;
    while i < n
        invariant
            n == checks.len(),
            i <= n,
            times@ == response_times(checks@).take(i as int),
        decreases n - i,
    {
        times.push(checks[i].response_time_ms);
        i = i + 1;
        assert(times@ =~= response_times(checks@).take(i as int));
    }
    assert(times@ =~= response_times(checks@));
    let k_raw: u64 = (n as u64) * 95 / 100;
    let k: usize = if k_raw < (n - 1) as u64 {
        k_raw as usize
    } else {
        n - 1
    };
    assert(k == p95_index(n as int));
    // Start from the smallest response time.
    let mut cur = times[0];
    let mut j: usize = 1;
    while j < n
        invariant
            n == times.len(),
            1 <= j <= n,
            times@.contains(cur),
            forall|q: int| 0 <= q < j ==> cur <= times@[q],
        decreases n - j,
    {
        if times[j] < cur {
            cur = times[j];
        }
        j = j + 1;
    }
    proof {
        lemma_count_lt_none(times@, cur);
    }
    loop
        invariant
            n == times.len(),
            n == checks.len(),
            times@ == response_times(checks@),
            k == p95_index(n as int),
            n >= 1,
            k < n,
            times@.contains(cur),
            count_lt(times@, cur) <= k,
        decreases n - count_le(times@, cur),
    {
        let le = count_below(&times, cur, true);
        if le > k {
            return Some(cur);
        }
        proof {
            lemma_counts_bounds(times@, cur);
            lemma_some_above(times@, cur);
        }
        // The smallest response time above `cur`.
        let mut next: u64 = 0;
        let mut found = false;
        let mut q: usize = 0;
        while q < n
            invariant
                n == times.len(),
                q <= n,
                found ==> times@.contains(next) && next > cur,
                found ==> forall|p: int| 0 <= p < q && times@[p] > cur ==> next <= times@[p],
                !found ==> forall|p: int| 0 <= p < q ==> times@[p] <= cur,
            decreases n - q,
        {
            if times[q] > cur && (!found || times[q] < next) {
                next = times[q];
                found = true;
            }
            q = q + 1;
        }
        proof {
            lemma_count_gap(times@, cur, next);
            lemma_counts_bounds(times@, next);
            let w = choose|w: int| 0 <= w < n && times@[w] == next;
            assert(count_le(times@, next) > count_le(times@, cur)) by {
                lemma_count_le_strict(times@, cur, next, w);
            }
        }
        cur = next;
    }
}

proof fn lemma_count_le_strict(s: Seq<u64>, a: u64, b: u64, w: int)
    requires
        a < b,
        0 <= w < s.len(),
        s[w] == b,
    ensures
        count_le(s, b) > count_le(s, a),
    decreases s.len(),
{
    lemma_count_le_mono(s.drop_last(), a, b);
    if w == s.len() - 1 {
    } else {
        lemma_count_le_strict(s.drop_last(), a, b, w);
    }
}

proof fn lemma_count_le_mono(s: Seq<u64>, a: u64, b: u64)
    requires
        a <= b,
    ensures
        count_le(s, a) <= count_le(s, b),
    decreases s.len(),
{
    if s.len() > 0 {
        lemma_count_le_mono(s.drop_last(), a, b);
    }
}

} // verus!
