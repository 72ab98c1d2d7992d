use vstd::prelude::*;
use std::collections::HashMap;
use crate::model::{MonitorCheck, MonitorCheckStatus};
use crate::notify::IncidentRecord;

verus! {

/// How many recent checks the dashboard keeps per monitor.
pub const RECENT_CHECKS_CAP: usize = 100;

/// Records a check that just arrived: it goes first (the list is newest
/// first) and only the newest hundred are kept.
pub fn push_recent_check(list: &mut Vec<MonitorCheck>, check: MonitorCheck)
    ensures
        final(list)@ == (seq![check] + old(list)@).take(
            if old(list)@.len() + 1 <= 100 {
                (old(list)@.len() + 1) as int
            } else {
                100int
            },
        ),
        final(list)@.len() <= 100,
{
    list.insert(0, check);
    proof {
        assert(list@ =~= seq![check] + old(list)@);
    }
    list.truncate(RECENT_CHECKS_CAP);
    proof {
        let full = seq![check] + old(list)@;
        if full.len() <= 100 {
            assert(full.take(full.len() as int) =~= full);
        }
    }
}

/// Records an incident that just opened: it goes first.
pub fn incident_opened(list: &mut Vec<IncidentRecord>, incident: IncidentRecord)
    ensures
        final(list)@ == seq![incident] + old(list)@,
{
    list.insert(0, incident);
    assert(list@ =~= seq![incident] + old(list)@);
}

/// Whether `new` is `old` once incident `id` was resolved at `resolved_at`:
/// the first incident with that id is marked resolved; an incident not seen
/// before is added first, already resolved.
pub open spec fn resolution_of(
    old: Seq<IncidentRecord>,
    new: Seq<IncidentRecord>,
    id: u128,
    monitor_id: u128,
    started_at: i64,
    resolved_at: i64,
) -> bool {
    if exists|k: int| 0 <= k < old.len() && old[k].id == id {
        exists|k: int|
            0 <= k < old.len() && old[k].id == id && (forall|j: int| 0 <= j < k ==> old[j].id != id)
                && new == old.update(k, IncidentRecord { resolved_at: Some(resolved_at), ..old[k] })
    } else {
        new == seq![IncidentRecord { id, monitor_id, started_at, resolved_at: Some(resolved_at) }]
            + old
    }
}

/// Records that incident `id` was resolved at `resolved_at`: the first
/// incident with that id is marked resolved; an incident not seen before is
/// added first, already resolved.
pub fn incident_resolved(
    list: &mut Vec<IncidentRecord>,
    id: u128,
    monitor_id: u128,
    started_at: i64,
    resolved_at: i64,
)
    ensures
        resolution_of(old(list)@, final(list)@, id, monitor_id, started_at, resolved_at),
{
    let mut k: usize = 0;
    while k < list.len()
        invariant
            k <= list.len(),
            list@ == old(list)@,
            forall|j: int| 0 <= j < k ==> list@[j].id != id,
        decreases list.len() - k,
    {
        if list[k].id == id {
            let mut item = list[k];
            item.resolved_at = Some(resolved_at);
            list.set(k, item);
            return;
        }
        k = k + 1;
    }
    list.insert(
        0,
        IncidentRecord { id, monitor_id, started_at, resolved_at: Some(resolved_at) },
    );
    proof {
        assert(list@ =~= seq![
            IncidentRecord { id, monitor_id, started_at, resolved_at: Some(resolved_at) },
        ] + old(list)@);
    }
}

/// The first incident of `list` that is still open, if any.
pub fn open_incident(list: &Vec<IncidentRecord>) -> (r: Option<IncidentRecord>)
    ensures
        r matches Some(inc) ==> exists|k: int|
            0 <= k < list@.len() && list@[k] == inc && inc.resolved_at is None && (forall|j: int|
                0 <= j < k ==> list@[j].resolved_at is Some),
        r is None ==> forall|j: int| 0 <= j < list@.len() ==> list@[j].resolved_at is Some,
{
    let mut k: usize = 0;
    while k < list.len()
        invariant
            k <= list.len(),
            forall|j: int| 0 <= j < k ==> list@[j].resolved_at is Some,
        decreases list.len() - k,
    {
        if list[k].resolved_at.is_none() {
            return Some(list[k]);
        }
        k = k + 1;
    }
    None
}

/// The newest-first list of the newest hundred checks after `check` arrived
/// at a list that was `list`.
pub open spec fn with_recent_check(list: Seq<MonitorCheck>, check: MonitorCheck) -> Seq<MonitorCheck> {
    (seq![check] + list).take(
        if list.len() + 1 <= 100 {
            (list.len() + 1) as int
        } else {
            100int
        },
    )
}

/// The list a map holds for `k`, or the empty list.
pub open spec fn list_at<V>(m: Map<u128, Vec<V>>, k: u128) -> Seq<V> {
    if m.contains_key(k) {
        m[k]@
    } else {
        Seq::empty()
    }
}

/// Whether `new` is `old` with the list of `k` replaced by one that views as
/// `list` (and every other entry kept).
pub open spec fn replaced_list<V>(
    old: Map<u128, Vec<V>>,
    new: Map<u128, Vec<V>>,
    k: u128,
    list: Seq<V>,
) -> bool {
    &&& new.dom() == old.dom().insert(k)
    &&& new[k]@ == list
    &&& forall|j: u128| j != k && #[trigger] old.contains_key(j) ==> new[j] == old[j]
}

/// An event of the live stream that changes what the dashboard shows.
#[derive(Debug, Clone, PartialEq, Eq)]
pub enum LiveEvent {
    /// A check of monitor `monitor_id` finished.
    CheckResult { monitor_id: u128, check: MonitorCheck },
    /// Monitor `monitor_id` went down and incident `incident_id` opened.
    IncidentOpened { monitor_id: u128, incident_id: u128, started_at: i64 },
    /// Incident `incident_id` of monitor `monitor_id` was resolved.
    IncidentResolved { monitor_id: u128, incident_id: u128, started_at: i64, resolved_at: i64 },
}

/// What the dashboard has learnt from the live stream, per monitor.
pub struct LiveStats {
    /// The status of each monitor's latest check.
    pub latest_status: HashMap<u128, MonitorCheckStatus>,
    /// The response time of each monitor's latest check.
    pub latest_response_ms: HashMap<u128, u64>,
    /// Each monitor's most recent checks, newest first, at most a hundred.
    pub recent_checks: HashMap<u128, Vec<MonitorCheck>>,
    /// Each monitor's incidents opened or resolved while connected.
    pub live_incidents: HashMap<u128, Vec<IncidentRecord>>,
    /// Whether the stream is open.
    pub connected: bool,
}

/// Whether `new` is what `old` becomes once `event` is taken in: a check
/// result sets the monitor's latest status and response time and goes first
/// in its recent checks (newest hundred kept); an opened incident goes first
/// in the monitor's incidents; a resolved incident is marked resolved, or
/// added first when it was not seen before. Nothing else changes.
pub open spec fn applied(old: LiveStats, event: LiveEvent, new: LiveStats) -> bool {
    &&& new.connected == old.connected
    &&& match event {
        LiveEvent::CheckResult { monitor_id, check } => {
            &&& new.latest_status@ == old.latest_status@.insert(
                monitor_id,
                check.status,
            )
            &&& new.latest_response_ms@ == old.latest_response_ms@.insert(
                monitor_id,
                check.response_time_ms,
            )
            &&& replaced_list(
                old.recent_checks@,
                new.recent_checks@,
                monitor_id,
                with_recent_check(list_at(old.recent_checks@, monitor_id), check),
            )
            &&& new.live_incidents@ == old.live_incidents@
        },
        LiveEvent::IncidentOpened { monitor_id, incident_id, started_at } => {
            &&& new.latest_status@ == old.latest_status@
            &&& new.latest_response_ms@ == old.latest_response_ms@
            &&& new.recent_checks@ == old.recent_checks@
            &&& replaced_list(
                old.live_incidents@,
                new.live_incidents@,
                monitor_id,
                seq![
                    IncidentRecord {
                        id: incident_id,
                        monitor_id,
                        started_at,
                        resolved_at: None,
                    },
                ] + list_at(old.live_incidents@, monitor_id),
            )
        },
        LiveEvent::IncidentResolved { monitor_id, incident_id, started_at, resolved_at } => {
            &&& new.latest_status@ == old.latest_status@
            &&& new.latest_response_ms@ == old.latest_response_ms@
            &&& new.recent_checks@ == old.recent_checks@
            &&& new.live_incidents@.dom() == old.live_incidents@.dom().insert(
                monitor_id,
            )
            &&& resolution_of(
                list_at(old.live_incidents@, monitor_id),
                new.live_incidents@[monitor_id]@,
                incident_id,
                monitor_id,
                started_at,
                resolved_at,
            )
            &&& forall|j: u128|
                j != monitor_id && #[trigger] old.live_incidents@.contains_key(j)
                    ==> new.live_incidents@[j] == old.live_incidents@[j]
        },
    }
}

/// The checks of monitor `m` among `events`, in the order they arrived.
pub open spec fn checks_of(events: Seq<LiveEvent>, m: u128) -> Seq<MonitorCheck>
    decreases events.len(),
{
    if events.len() == 0 {
        Seq::empty()
    } else {
        let earlier = checks_of(events.drop_last(), m);
        match events.last() {
            LiveEvent::CheckResult { monitor_id, check } => if monitor_id == m {
                earlier.push(check)
            } else {
                earlier
            },
            _ => earlier,
        }
    }
}

/// The last check of monitor `m` among `events`, if there is one.
pub open spec fn last_check(events: Seq<LiveEvent>, m: u128) -> Option<MonitorCheck> {
    let checks = checks_of(events, m);
    if checks.len() > 0 {
        Some(checks.last())
    } else {
        None
    }
}

/// The checks of monitor `m` among `events`, newest first, followed by the
/// list `start` it had before; only the first hundred are kept.
pub open spec fn newest_checks(start: Seq<MonitorCheck>, events: Seq<LiveEvent>, m: u128) -> Seq<
    MonitorCheck,
> {
    let all = checks_of(events, m).reverse() + start;
    all.take(
        if all.len() <= 100 {
            all.len() as int
        } else {
            100int
        },
    )
}

/// Whether `event` names incident `id` of monitor `m`.
pub open spec fn names_incident(event: LiveEvent, m: u128, id: u128) -> bool {
    match event {
        LiveEvent::CheckResult { .. } => false,
        LiveEvent::IncidentOpened { monitor_id, incident_id, .. } => monitor_id == m && incident_id
            == id,
        LiveEvent::IncidentResolved { monitor_id, incident_id, .. } => monitor_id == m
            && incident_id == id,
    }
}

/// Whether some incident of `list` has id `id`.
pub open spec fn has_id(list: Seq<IncidentRecord>, id: u128) -> bool {
    exists|k: int| 0 <= k < list.len() && #[trigger] list[k].id == id
}

/// Whether no two incidents of `list` share an id.
pub open spec fn unique_ids(list: Seq<IncidentRecord>) -> bool {
    forall|i: int, j: int| 0 <= i < j < list.len() ==> #[trigger] list[i].id != #[trigger] list[j].id
}

/// Whether every incident that `events` open for monitor `m` is new: it is
/// not in `start` and no earlier event names it.
pub open spec fn opens_are_new(start: Seq<IncidentRecord>, events: Seq<LiveEvent>, m: u128) -> bool {
    forall|i: int|
        0 <= i < events.len() ==> match #[trigger] events[i] {
            LiveEvent::IncidentOpened { monitor_id, incident_id, .. } => monitor_id == m ==> (
            !has_id(start, incident_id) && forall|j: int|
                0 <= j < i ==> !names_incident(#[trigger] events[j], m, incident_id)),
            _ => true,
        }
}

proof fn lemma_newest_step(start: Seq<MonitorCheck>, events: Seq<LiveEvent>, m: u128)
    requires
        events.len() > 0,
        start.len() <= 100,
    ensures
        newest_checks(start, events, m) == match events.last() {
            LiveEvent::CheckResult { monitor_id, check } => if monitor_id == m {
                with_recent_check(newest_checks(start, events.drop_last(), m), check)
            } else {
                newest_checks(start, events.drop_last(), m)
            },
            _ => newest_checks(start, events.drop_last(), m),
        },
{
    let earlier = checks_of(events.drop_last(), m);
    match events.last() {
        LiveEvent::CheckResult { monitor_id, check } => {
            if monitor_id == m {
                assert(earlier.push(check).reverse() =~= seq![check] + earlier.reverse());
                let all = earlier.reverse() + start;
                assert(seq![check] + earlier.reverse() + start =~= seq![check] + all);
                let prev = newest_checks(start, events.drop_last(), m);
                let n = if all.len() <= 100 {
                    all.len() as int
                } else {
                    100int
                };
                assert(prev.len() == n);
                let lhs = newest_checks(start, events, m);
                let rhs = with_recent_check(prev, check);
                assert(lhs.len() == rhs.len());
                assert forall|i: int| 0 <= i < lhs.len() implies lhs[i] == rhs[i] by {
                    if i > 0 {
                        assert(lhs[i] == all[i - 1]);
                        assert(rhs[i] == prev[i - 1]);
                    }
                }
                assert(lhs =~= rhs);
            }
        },
        _ => {},
    }
}

proof fn lemma_ids_kept(
    old: Seq<IncidentRecord>,
    new: Seq<IncidentRecord>,
    id: u128,
    monitor_id: u128,
    started_at: i64,
    resolved_at: i64,
)
    requires
        resolution_of(old, new, id, monitor_id, started_at, resolved_at),
    ensures
        unique_ids(old) ==> unique_ids(new),
        forall|x: u128| has_id(new, x) ==> has_id(old, x) || x == id,
{
    if exists|k: int| 0 <= k < old.len() && old[k].id == id {
        let k = choose|k: int|
            0 <= k < old.len() && old[k].id == id && (forall|j: int| 0 <= j < k ==> old[j].id != id)
                && new == old.update(k, IncidentRecord { resolved_at: Some(resolved_at), ..old[k] });
        assert forall|i: int| 0 <= i < new.len() implies new[i].id == old[i].id by {}
        assert forall|x: u128| has_id(new, x) implies has_id(old, x) || x == id by {
            let w = choose|w: int| 0 <= w < new.len() && #[trigger] new[w].id == x;
            assert(old[w].id == x);
        }
    } else {
        if unique_ids(old) {
            assert forall|i: int, j: int| 0 <= i < j < new.len() implies #[trigger] new[i].id
                != #[trigger] new[j].id by {
                if i == 0 {
                    assert(new[j] == old[j - 1]);
                } else {
                    assert(new[i] == old[i - 1] && new[j] == old[j - 1]);
                }
            }
        }
        assert forall|x: u128| has_id(new, x) implies has_id(old, x) || x == id by {
            let w = choose|w: int| 0 <= w < new.len() && #[trigger] new[w].id == x;
            if w > 0 {
                assert(new[w] == old[w - 1]);
            }
        }
    }
}

/// Whatever events the live stream delivers, taken in one after another
/// (`states[i + 1]` is `states[i]` once `events[i]` is taken in), for each
/// monitor `m`:
/// - its recent checks are its new checks, newest first, followed by those
///   it had, and never more than a hundred;
/// - its latest status and response time are those of its last check, and
///   stay as they were when no check of it arrived;
/// - when every incident the stream opens is new, no two of its incidents
///   share an id, and each of its incidents was there at the start or was
///   named by an event;
/// - whether the stream is open does not change.
pub proof fn lemma_live_stream(states: Seq<LiveStats>, events: Seq<LiveEvent>, m: u128)
    requires
        states.len() == events.len() + 1,
        forall|i: int| 0 <= i < events.len() ==> applied(#[trigger] states[i], events[i], states[i + 1]),
    ensures
        ({
            let first = states[0];
            let last = states.last();
            let start = list_at(first.live_incidents@, m);
            let incidents = list_at(last.live_incidents@, m);
            &&& last.connected == first.connected
            &&& list_at(first.recent_checks@, m).len() <= 100 ==> list_at(last.recent_checks@, m)
                == newest_checks(list_at(first.recent_checks@, m), events, m) && list_at(
                last.recent_checks@,
                m,
            ).len() <= 100
            &&& match last_check(events, m) {
                Some(c) => {
                    &&& last.latest_status@.contains_key(m)
                    &&& last.latest_status@[m] == c.status
                    &&& last.latest_response_ms@.contains_key(m)
                    &&& last.latest_response_ms@[m] == c.response_time_ms
                },
                None => {
                    &&& last.latest_status@.contains_key(m) == first.latest_status@.contains_key(m)
                    &&& first.latest_status@.contains_key(m) ==> last.latest_status@[m]
                        == first.latest_status@[m]
                    &&& last.latest_response_ms@.contains_key(m)
                        == first.latest_response_ms@.contains_key(m)
                    &&& first.latest_response_ms@.contains_key(m) ==> last.latest_response_ms@[m]
                        == first.latest_response_ms@[m]
                },
            }
            &&& forall|x: u128|
                has_id(incidents, x) ==> has_id(start, x) || exists|i: int|
                    0 <= i < events.len() && #[trigger] names_incident(events[i], m, x)
            &&& unique_ids(start) && opens_are_new(start, events, m) ==> unique_ids(incidents)
        }),
    decreases events.len(),
{
    if events.len() > 0 {
        let n = events.len() - 1;
        let prev_states = states.drop_last();
        let prev_events = events.drop_last();
        assert forall|i: int| 0 <= i < prev_events.len() implies applied(
            #[trigger] prev_states[i],
            prev_events[i],
            prev_states[i + 1],
        ) by {
            assert(applied(states[i], events[i], states[i + 1]));
        }
        lemma_live_stream(prev_states, prev_events, m);
        let before = states[n];
        let after = states[n + 1];
        assert(applied(before, events[n], after));
        assert(prev_states.last() == before);
        let first = states[0];
        let start = list_at(first.live_incidents@, m);
        let old_list = list_at(before.live_incidents@, m);
        let new_list = list_at(after.live_incidents@, m);
        if list_at(first.recent_checks@, m).len() <= 100 {
            lemma_newest_step(list_at(first.recent_checks@, m), events, m);
        }
        // What the last event does to monitor `m`'s incidents.
        match events[n] {
            LiveEvent::CheckResult { monitor_id, check } => {
                assert(new_list == old_list);
            },
            LiveEvent::IncidentOpened { monitor_id, incident_id, started_at } => {
                if monitor_id == m {
                    assert(after.live_incidents@.contains_key(m));
                    assert(new_list == seq![
                        IncidentRecord { id: incident_id, monitor_id, started_at, resolved_at: None },
                    ] + old_list);
                    assert forall|x: u128| has_id(new_list, x) implies has_id(old_list, x) || x
                        == incident_id by {
                        let w = choose|w: int| 0 <= w < new_list.len() && #[trigger] new_list[w].id
                            == x;
                        if w > 0 {
                            assert(new_list[w] == old_list[w - 1]);
                        }
                    }
                    assert(names_incident(events[n], m, incident_id));
                    if unique_ids(start) && opens_are_new(start, events, m) {
                        assert(opens_are_new(start, prev_events, m));
                        if has_id(old_list, incident_id) {
                            assert(has_id(start, incident_id) || exists|i: int|
                                0 <= i < prev_events.len() && #[trigger] names_incident(
                                    prev_events[i],
                                    m,
                                    incident_id,
                                ));
                            assert(false);
                        }
                        assert forall|i: int, j: int| 0 <= i < j < new_list.len() implies #[trigger] new_list[i].id
                            != #[trigger] new_list[j].id by {
                            if i == 0 {
                                assert(new_list[j] == old_list[j - 1]);
                            } else {
                                assert(new_list[i] == old_list[i - 1] && new_list[j] == old_list[j - 1]);
                            }
                        }
                    }
                } else {
                    assert(new_list == old_list);
                }
            },
            LiveEvent::IncidentResolved { monitor_id, incident_id, started_at, resolved_at } => {
                if monitor_id == m {
                    assert(after.live_incidents@.contains_key(m));
                    assert(names_incident(events[n], m, incident_id));
                    lemma_ids_kept(old_list, new_list, incident_id, monitor_id, started_at, resolved_at);
                } else {
                    assert(new_list == old_list);
                }
            },
        }
    }
}

impl LiveStats {
    /// Nothing learnt yet, not connected.
    pub fn new() -> (r: LiveStats)
        ensures
            r.latest_status@ == Map::<u128, MonitorCheckStatus>::empty(),
            r.latest_response_ms@ == Map::<u128, u64>::empty(),
            r.recent_checks@ == Map::<u128, Vec<MonitorCheck>>::empty(),
            r.live_incidents@ == Map::<u128, Vec<IncidentRecord>>::empty(),
            !r.connected,
    {
        LiveStats {
            latest_status: HashMap::new(),
            latest_response_ms: HashMap::new(),
            recent_checks: HashMap::new(),
            live_incidents: HashMap::new(),
            connected: false,
        }
    }

    /// The stream opened.
    pub fn mark_connected(&mut self)
        ensures
            final(self).connected,
            final(self).latest_status@ == old(self).latest_status@,
            final(self).latest_response_ms@ == old(self).latest_response_ms@,
            final(self).recent_checks@ == old(self).recent_checks@,
            final(self).live_incidents@ == old(self).live_incidents@,
    {
        self.connected = true;
    }

    /// Takes in one event of the stream.
    pub fn apply(&mut self, event: LiveEvent)
        ensures
            applied(*old(self), event, *final(self)),
    {
        broadcast use vstd::std_specs::hash::group_hash_axioms;

        match event {
            LiveEvent::CheckResult { monitor_id, check } => {
                self.latest_status.insert(monitor_id, check.status);
                self.latest_response_ms.insert(monitor_id, check.response_time_ms);
                let mut list = match self.recent_checks.remove(&monitor_id) {
                    Some(l) => l,
                    None => Vec::new(),
                };
                push_recent_check(&mut list, check);
                self.recent_checks.insert(monitor_id, list);
                assert(self.recent_checks@.dom() =~= old(self).recent_checks@.dom().insert(
                    monitor_id,
                ));
                assert(self.latest_status@ =~= old(self).latest_status@.insert(
                    monitor_id,
                    check.status,
                ));
                assert(self.latest_response_ms@ =~= old(self).latest_response_ms@.insert(
                    monitor_id,
                    check.response_time_ms,
                ));
                assert(self.live_incidents@ =~= old(self).live_incidents@);
            },
            LiveEvent::IncidentOpened { monitor_id, incident_id, started_at } => {
                let mut list = match self.live_incidents.remove(&monitor_id) {
                    Some(l) => l,
                    None => Vec::new(),
                };
                incident_opened(
                    &mut list,
                    IncidentRecord { id: incident_id, monitor_id, started_at, resolved_at: None },
                );
                self.live_incidents.insert(monitor_id, list);
                assert(self.live_incidents@.dom() =~= old(self).live_incidents@.dom().insert(
                    monitor_id,
                ));
                assert(self.latest_status@ =~= old(self).latest_status@);
                assert(self.latest_response_ms@ =~= old(self).latest_response_ms@);
                assert(self.recent_checks@ =~= old(self).recent_checks@);
            },
            LiveEvent::IncidentResolved { monitor_id, incident_id, started_at, resolved_at } => {
                let mut list = match self.live_incidents.remove(&monitor_id) {
                    Some(l) => l,
                    None => Vec::new(),
                };
                incident_resolved(&mut list, incident_id, monitor_id, started_at, resolved_at);
                self.live_incidents.insert(monitor_id, list);
                assert(self.live_incidents@.dom() =~= old(self).live_incidents@.dom().insert(
                    monitor_id,
                ));
                assert(self.latest_status@ =~= old(self).latest_status@);
                assert(self.latest_response_ms@ =~= old(self).latest_response_ms@);
                assert(self.recent_checks@ =~= old(self).recent_checks@);
            },
        }
    }
}

} // verus!
