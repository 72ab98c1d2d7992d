use vstd::prelude::*;
use std::collections::HashSet;
use crate::model::{Monitor, MonitorCheckStatus};

verus! {

/// The state a monitor is believed to be in.
#[derive(Debug, Clone, Copy, PartialEq, Eq, Structural)]
pub enum Status {
    Unknown,
    Up,
    Down,
}

/// What one check of a monitor produced.
#[derive(Debug, Clone, PartialEq, Eq)]
pub struct CheckOutcome {
    pub status: Status,
    pub status_code: Option<u16>,
    pub response_time_ms: u64,
    pub error: Option<String>,
}

/// One step of the alerting state machine, over mathematical integers.
///
/// Returns the new status, the new count of consecutive failures, and whether
/// the step reports that the monitor went down or came back up.
pub open spec fn step(retries: int, prev: Status, failures: int, outcome: Status) -> (
    Status,
    int,
    bool,
    bool,
) {
    if outcome == Status::Up {
        (Status::Up, 0, false, prev == Status::Down)
    } else {
        let f = failures + 1;
        let threshold = retries + 1;
        match prev {
            Status::Up => if f >= threshold {
                (Status::Down, f, true, false)
            } else {
                (Status::Up, f, false, false)
            },
            Status::Down => (Status::Down, f, false, false),
            Status::Unknown => if f >= threshold {
                (Status::Down, f, false, false)
            } else {
                (Status::Unknown, f, false, false)
            },
        }
    }
}

/// Feeds one check outcome to the state machine of `monitor`, which tolerates
/// `monitor.retries` failures in a row before it is declared down.
///
/// Returns `(went_down, went_up)`.
pub fn validate_check_result(
    monitor: &Monitor,
    status: &mut Status,
    res: &CheckOutcome,
    consecutive_failures: &mut u32,
) -> (r: (bool, bool))
    requires
        res.status != Status::Up ==> *old(consecutive_failures) < u32::MAX && monitor.retries
            < u32::MAX,
    ensures
        (*final(status), *final(consecutive_failures) as int, r.0, r.1) == step(
            monitor.retries as int,
            *old(status),
            *old(consecutive_failures) as int,
            res.status,
        ),
        !(r.0 && r.1),
{
    let prev = *status;
    let retries = monitor.retries;
    match res.status {
        Status::Up => {
            *consecutive_failures = 0;
            *status = Status::Up;
            match prev {
                Status::Down => (false, true),
                Status::Unknown => (false, false),
                Status::Up => (false, false),
            }
        },
        Status::Down | Status::Unknown => {
            *consecutive_failures = *consecutive_failures + 1;
            let threshold = retries + 1;
            match prev {
                Status::Up => {
                    if *consecutive_failures >= threshold {
                        *status = Status::Down;
                        (true, false)
                    } else {
                        (false, false)
                    }
                },
                Status::Down => (false, false),
                Status::Unknown => {
                    if *consecutive_failures >= threshold {
                        *status = Status::Down;
                    }
                    (false, false)
                },
            }
        },
    }
}

/// The status stored for a check with outcome `status`: anything but `Up`
/// is stored as `Down`.
pub open spec fn spec_check_status(status: Status) -> MonitorCheckStatus {
    if status == Status::Up {
        MonitorCheckStatus::Up
    } else {
        MonitorCheckStatus::Down
    }
}

/// The status recorded for a check whose outcome was `status`.
pub fn check_status_of(status: Status) -> (r: MonitorCheckStatus)
    ensures
        r == spec_check_status(status),
{
    match status {
        Status::Up => MonitorCheckStatus::Up,
        Status::Down | Status::Unknown => MonitorCheckStatus::Down,
    }
}

/// The status a worker starts from when the last stored check was `last`.
pub fn status_from_check(last: MonitorCheckStatus) -> (r: Status)
    ensures
        r == (if last == MonitorCheckStatus::Up {
            Status::Up
        } else {
            Status::Down
        }),
{
    match last {
        MonitorCheckStatus::Up => Status::Up,
        MonitorCheckStatus::Down => Status::Down,
    }
}

/// The error text that a down notification carries: the check's error, or
/// the empty string when it had none.
pub fn down_event_error(res: &CheckOutcome) -> (r: String)
    ensures
        r@ == (match res.error {
            Some(e) => e@,
            None => Seq::<char>::empty(),
        }),
{
    match &res.error {
        Some(e) => e.clone(),
        None => String::new(),
    }
}

/// What a worker must do after one check.
#[derive(Debug, Clone, PartialEq, Eq)]
pub struct CheckDecision {
    /// The status to store the check with.
    pub check_status: MonitorCheckStatus,
    /// The monitor went down: open an incident and send a down notification.
    pub went_down: bool,
    /// The monitor came back up: resolve its open incident, if any, and send a
    /// recovery notification.
    pub went_up: bool,
    /// The error text of the down notification.
    pub down_error: String,
}

/// The alerting state a monitor worker keeps between checks.
#[derive(Debug, Clone, Copy, PartialEq, Eq, Structural)]
pub struct WorkerState {
    pub status: Status,
    pub consecutive_failures: u32,
}

impl WorkerState {
    /// The state of a worker that has not seen a check yet.
    pub fn new() -> (r: WorkerState)
        ensures
            r.status == Status::Unknown,
            r.consecutive_failures == 0,
    {
        WorkerState { status: Status::Unknown, consecutive_failures: 0 }
    }

    /// The state a worker starts from given the status of the monitor's last
    /// stored check, if there is one.
    pub fn resume(last: Option<MonitorCheckStatus>) -> (r: WorkerState)
        ensures
            r.consecutive_failures == 0,
            r.status == (match last {
                Some(MonitorCheckStatus::Up) => Status::Up,
                Some(MonitorCheckStatus::Down) => Status::Down,
                None => Status::Unknown,
            }),
    {
        match last {
            Some(s) => WorkerState { status: status_from_check(s), consecutive_failures: 0 },
            None => WorkerState::new(),
        }
    }

    /// Takes in the outcome of a check of `monitor` and says what to record
    /// and whom to alert.
    pub fn observe(&mut self, monitor: &Monitor, res: &CheckOutcome) -> (r: CheckDecision)
        requires
            res.status != Status::Up ==> old(self).consecutive_failures < u32::MAX
                && monitor.retries < u32::MAX,
        ensures
            (final(self).status, final(self).consecutive_failures as int, r.went_down, r.went_up)
                == step(
                monitor.retries as int,
                old(self).status,
                old(self).consecutive_failures as int,
                res.status,
            ),
            r.check_status == spec_check_status(res.status),
            r.down_error@ == (match res.error {
                Some(e) => e@,
                None => Seq::<char>::empty(),
            }),
    {
        let check_status = check_status_of(res.status);
        let (went_down, went_up) = validate_check_result(
            monitor,
            &mut self.status,
            res,
            &mut self.consecutive_failures,
        );
        CheckDecision { check_status, went_down, went_up, down_error: down_event_error(res) }
    }
}

/// Runs the state machine over a sequence of outcomes; returns the final
/// status and failure count and how many down and up transitions it reported.
pub open spec fn run(retries: int, status: Status, failures: int, outcomes: Seq<Status>) -> (
    Status,
    int,
    nat,
    nat,
)
    decreases outcomes.len(),
{
    if outcomes.len() == 0 {
        (status, failures, 0, 0)
    } else {
        let s = step(retries, status, failures, outcomes[0]);
        let rest = run(retries, s.0, s.1, outcomes.drop_first());
        (
            rest.0,
            rest.1,
            rest.2 + (if s.2 {
                1nat
            } else {
                0nat
            }),
            rest.3 + (if s.3 {
                1nat
            } else {
                0nat
            }),
        )
    }
}

/// Whether every outcome in `outcomes` is a failure.
pub open spec fn all_failures(outcomes: Seq<Status>) -> bool {
    forall|i: int| 0 <= i < outcomes.len() ==> outcomes[i] != Status::Up
}

/// One check never reports both a down and an up transition; a down report
/// needs the monitor to have been up and the retry budget to be exhausted; an
/// up report needs the monitor to have been down; a down report leaves it
/// down and an up report leaves it up; a known status never becomes unknown
/// again; a successful check always clears the failure count and marks the
/// monitor up.
pub proof fn lemma_step_reports(retries: int, prev: Status, failures: int, outcome: Status)
    ensures
        ({
            let s = step(retries, prev, failures, outcome);
            &&& !(s.2 && s.3)
            &&& s.2 ==> prev == Status::Up && outcome != Status::Up && failures + 1 >= retries + 1
            &&& s.3 ==> prev == Status::Down && outcome == Status::Up
            &&& s.2 ==> s.0 == Status::Down
            &&& s.3 ==> s.0 == Status::Up
            &&& prev != Status::Unknown ==> s.0 != Status::Unknown
            &&& outcome == Status::Up ==> s.0 == Status::Up && s.1 == 0
            &&& outcome != Status::Up ==> s.1 == failures + 1
        }),
{
}

/// Down and recovery reports alternate: starting from a known status, the
/// number of down reports minus the number of up reports is the change in
/// "being down" between the start and the end of the run.
pub proof fn lemma_reports_alternate(
    retries: int,
    status: Status,
    failures: int,
    outcomes: Seq<Status>,
)
    requires
        status != Status::Unknown,
    ensures
        ({
            let r = run(retries, status, failures, outcomes);
            &&& r.0 != Status::Unknown
            &&& (r.2 as int) - (r.3 as int) == (if r.0 == Status::Down {
                1int
            } else {
                0int
            }) - (if status == Status::Down {
                1int
            } else {
                0int
            })
        }),
    decreases outcomes.len(),
{
    if outcomes.len() > 0 {
        let s = step(retries, status, failures, outcomes[0]);
        lemma_reports_alternate(retries, s.0, s.1, outcomes.drop_first());
    }
}

/// From a monitor that is up with no failures, a run of failures shorter than
/// the retry budget reports nothing and leaves it up; a run that reaches the
/// budget (`retries + 1` failures) marks it down and reports exactly one down
/// transition.
pub proof fn lemma_retry_budget(retries: int, failures: int, outcomes: Seq<Status>)
    requires
        retries >= 0,
        0 <= failures,
        failures + outcomes.len() <= retries + 1,
        all_failures(outcomes),
    ensures
        ({
            let r = run(retries, Status::Up, failures, outcomes);
            &&& r.1 == failures + outcomes.len()
            &&& r.3 == 0
            &&& if failures + outcomes.len() == retries + 1 && outcomes.len() > 0 {
                r.0 == Status::Down && r.2 == 1
            } else {
                r.0 == Status::Up && r.2 == 0
            }
        }),
    decreases outcomes.len(),
{
    if outcomes.len() > 0 {
        let s = step(retries, Status::Up, failures, outcomes[0]);
        let rest = outcomes.drop_first();
        assert(all_failures(rest)) by {
            assert forall|i: int| 0 <= i < rest.len() implies rest[i] != Status::Up by {
                assert(rest[i] == outcomes[i + 1]);
            }
        }
        assert(outcomes[0] != Status::Up);
        if failures + 1 >= retries + 1 {
            assert(s == (Status::Down, failures + 1, true, false));
            assert(rest.len() == 0);
            assert(run(retries, Status::Down, failures + 1, rest) == (
                Status::Down,
                failures + 1,
                0nat,
                0nat,
            ));
        } else {
            assert(s == (Status::Up, failures + 1, false, false));
            lemma_retry_budget(retries, failures + 1, rest);
        }
    }
}

/// While a monitor is down, further failures report nothing and keep it down:
/// one outage raises one alert.
pub proof fn lemma_down_is_sticky(retries: int, failures: int, outcomes: Seq<Status>)
    requires
        all_failures(outcomes),
    ensures
        ({
            let r = run(retries, Status::Down, failures, outcomes);
            r.0 == Status::Down && r.2 == 0 && r.3 == 0 && r.1 == failures + outcomes.len()
        }),
    decreases outcomes.len(),
{
    if outcomes.len() > 0 {
        let rest = outcomes.drop_first();
        assert(all_failures(rest)) by {
            assert forall|i: int| 0 <= i < rest.len() implies rest[i] != Status::Up by {
                assert(rest[i] == outcomes[i + 1]);
            }
        }
        lemma_down_is_sticky(retries, failures + 1, rest);
    }
}

/// A worker that starts without a known status raises no alert for the
/// failures it sees first: it settles on down silently, so a monitor that
/// was never seen up never reports an outage.
pub proof fn lemma_unknown_start_silent(retries: int, failures: int, outcomes: Seq<Status>)
    requires
        all_failures(outcomes),
    ensures
        ({
            let r = run(retries, Status::Unknown, failures, outcomes);
            r.0 != Status::Up && r.2 == 0 && r.3 == 0 && r.1 == failures + outcomes.len()
        }),
    decreases outcomes.len(),
{
    if outcomes.len() > 0 {
        let rest = outcomes.drop_first();
        assert(all_failures(rest)) by {
            assert forall|i: int| 0 <= i < rest.len() implies rest[i] != Status::Up by {
                assert(rest[i] == outcomes[i + 1]);
            }
        }
        assert(outcomes[0] != Status::Up);
        let s = step(retries, Status::Unknown, failures, outcomes[0]);
        if s.0 == Status::Down {
            lemma_down_is_sticky(retries, failures + 1, rest);
        } else {
            lemma_unknown_start_silent(retries, failures + 1, rest);
        }
    }
}

/// Positions, in order, of the monitors the engine runs at start-up: the
/// enabled ones (a paused monitor gets no worker).
pub fn monitors_to_start(monitors: &Vec<Monitor>) -> (r: Vec<usize>)
    ensures
        forall|k: int| 0 <= k < r@.len() ==> r@[k] < monitors@.len() && monitors@[r@[k] as int].enabled,
        forall|i: int|
            0 <= i < monitors@.len() ==> (r@.contains(i as usize) <==> #[trigger] monitors@[i].enabled),
        forall|a: int, b: int| 0 <= a < b < r@.len() ==> r@[a] < r@[b],
{
    let mut out: Vec<usize> = Vec::new();
    let mut i: usize = 0;
    while i < monitors.len()
        invariant
            i <= monitors.len(),
            forall|k: int| 0 <= k < out@.len() ==> out@[k] < i && monitors@[out@[k] as int].enabled,
            forall|a: int, b: int| 0 <= a < b < out@.len() ==> out@[a] < out@[b],
            forall|x: int| 0 <= x < i ==> (out@.contains(x as usize) <==> #[trigger] monitors@[x].enabled),
        decreases monitors.len() - i,
    {
        let ghost prev_out = out@;
        if monitors[i].enabled {
            out.push(i);
        }
        proof {
            assert forall|x: int| 0 <= x < i implies (#[trigger] out@.contains(x as usize)
                <==> prev_out.contains(x as usize)) by {
                if prev_out.contains(x as usize) {
                    let k = choose|k: int| 0 <= k < prev_out.len() && prev_out[k] == x as usize;
                    assert(out@[k] == x as usize);
                }
                if out@.contains(x as usize) {
                    let k = choose|k: int| 0 <= k < out@.len() && out@[k] == x as usize;
                    if k < prev_out.len() {
                        assert(prev_out[k] == x as usize);
                    }
                }
            }
            assert forall|x: int|
                0 <= x < i + 1 implies (out@.contains(x as usize) <==> #[trigger] monitors@[x].enabled) by {
                if x == i {
                    if monitors@[x].enabled {
                        assert(out@[out@.len() - 1] == i);
                    } else {
                        assert(!out@.contains(i));
                    }
                }
            }
        }
        i = i + 1;
    }
    out
}

/// The monitors whose workers run; the workers themselves are tasks of the
/// program, started and stopped as the registry's answers say.
pub struct EngineRegistry {
    running: HashSet<u128>,
}

impl EngineRegistry {
    /// The ids of the monitors whose workers run.
    pub closed spec fn running(&self) -> Set<u128> {
        self.running@
    }

    /// No worker runs.
    pub fn new() -> (r: EngineRegistry)
        ensures
            r.running() == Set::<u128>::empty(),
    {
        EngineRegistry { running: HashSet::new() }
    }

    /// Whether the worker of monitor `id` runs.
    pub fn is_running(&self, id: u128) -> (r: bool)
        ensures
            r == self.running().contains(id),
    {
        broadcast use vstd::std_specs::hash::group_hash_axioms;

        self.running.contains(&id)
    }

    /// Starts the worker of monitor `id` if the monitor is enabled; the
    /// answer says whether a worker must be spawned.
    pub fn start_monitor(&mut self, id: u128, enabled: bool) -> (spawn: bool)
        ensures
            spawn == enabled,
            enabled ==> final(self).running() == old(self).running().insert(id),
            !enabled ==> final(self).running() == old(self).running(),
    {
        broadcast use vstd::std_specs::hash::group_hash_axioms;

        if !enabled {
            return false;
        }
        self.running.insert(id);
        true
    }

    /// Stops the worker of monitor `id`; the answer says whether one was
    /// running and must be cancelled.
    pub fn stop_monitor(&mut self, id: u128) -> (stop: bool)
        ensures
            stop == old(self).running().contains(id),
            final(self).running() == old(self).running().remove(id),
    {
        broadcast use vstd::std_specs::hash::group_hash_axioms;

        self.running.remove(&id)
    }

    /// Restarts the worker of monitor `id` after its settings changed: any
    /// running worker is stopped, and a fresh one starts if the monitor is
    /// enabled. The answer says what to cancel and whether to spawn.
    pub fn restart_monitor(&mut self, id: u128, enabled: bool) -> (r: (bool, bool))
        ensures
            r.0 == old(self).running().contains(id),
            r.1 == enabled,
            final(self).running() == (if enabled {
                old(self).running().insert(id)
            } else {
                old(self).running().remove(id)
            }),
    {
        let stop = self.stop_monitor(id);
        let spawn = self.start_monitor(id, enabled);
        proof {
            if enabled {
                assert(old(self).running().remove(id).insert(id) =~= old(self).running().insert(id));
            }
        }
        (stop, spawn)
    }
}

/// After a restart, the worker of a monitor runs exactly when the monitor is
/// enabled, and the workers of the other monitors are as they were.
pub proof fn lemma_restart_runs_iff_enabled(before: Set<u128>, id: u128, enabled: bool, other: u128)
    requires
        other != id,
    ensures
        (if enabled {
            before.insert(id)
        } else {
            before.remove(id)
        }).contains(id) == enabled,
        (if enabled {
            before.insert(id)
        } else {
            before.remove(id)
        }).contains(other) == before.contains(other),
{
}

} // verus!
