// A Route is a journey: which Dodo makes it, which Stations it visits in
// order (as Stops), and where the Dodo stands while it is under way.
//
// Running a Route alternates outside work (scripts, moves, writes) with
// decisions; the decisions are the two state machines here. `Route`
// says which Stop runs next and records how each one ended; `StopRun`
// walks the Hops of one Stop and says what each asks for.
use vstd::prelude::*;

use crate::move_branch::MergeStrategy;
use crate::text::{owned, trim, trim_ws};

verus! {

/// A single step within a Stop.
#[derive(Debug, Clone)]
pub enum Hop {
    /// Run an outside script; its trimmed standard output becomes the
    /// "last script output" of the Stop.
    RunScript { command: String, args: Vec<String> },
    /// Re-address this Stop's Nest to the last script output.
    MoveBranch { merge_strategy: MergeStrategy },
    /// Deliver the Route's envelope into this Stop's Nest.
    Store,
}

/// One Station a Route visits, and what to do there.
#[derive(Debug, Clone)]
pub struct Stop {
    pub nest_id: String,
    pub hops: Vec<Hop>,
}

/// Where a Dodo stands on a Route.
#[derive(Debug, Clone, PartialEq, Eq)]
pub enum RouteStatus {
    /// No Hop has run yet.
    NotStarted,
    /// Working through the Stop at this index into `Route::stops`.
    InProgress { stop_index: usize },
    /// Every Stop finished.
    Completed,
    /// Stopped at this Stop, for this reason.
    Failed { stop_index: usize, reason: String },
}

/// A journey: the Dodo making it, the Stops in order, and its status.
#[derive(Debug, Clone)]
pub struct Route {
    pub dodo_id: String,
    pub stops: Vec<Stop>,
    pub status: RouteStatus,
}

/// The status a resumed route takes on, given its number of stops.
pub open spec fn resumed(s: RouteStatus, n: nat) -> RouteStatus {
    match s {
        RouteStatus::NotStarted => if 0 < n {
            RouteStatus::InProgress { stop_index: 0 }
        } else {
            RouteStatus::Completed
        },
        RouteStatus::InProgress { stop_index } => if stop_index < n {
            RouteStatus::InProgress { stop_index }
        } else {
            RouteStatus::Completed
        },
        _ => s,
    }
}

/// The status after the stop at `i` (of `n`) succeeded.
pub open spec fn after_success(i: nat, n: nat) -> RouteStatus {
    if i + 1 < n {
        RouteStatus::InProgress { stop_index: (i + 1) as usize }
    } else {
        RouteStatus::Completed
    }
}

/// The stop to run for a status, if any.
pub open spec fn stop_to_run(s: RouteStatus) -> Option<usize> {
    match s {
        RouteStatus::InProgress { stop_index } => Some(stop_index),
        _ => None,
    }
}

impl Route {
    /// A fresh Route: it always starts NotStarted.
    pub fn new(dodo_id: &str, stops: Vec<Stop>) -> (r: Route)
        ensures
            r.dodo_id@ == dodo_id@,
            r.stops == stops,
            r.status == RouteStatus::NotStarted,
    {
        Route { dodo_id: owned(dodo_id), stops, status: RouteStatus::NotStarted }
    }

    /// The Stop the Dodo is at, when the Route is in progress at a Stop
    /// that exists; `None` in every other state.
    pub fn current_stop(&self) -> (r: Option<&Stop>)
        ensures
            r == match self.status {
                RouteStatus::InProgress { stop_index } => if stop_index < self.stops@.len() {
                    Some(&self.stops@[stop_index as int])
                } else {
                    None
                },
                _ => None,
            },
    {
        match self.status {
            RouteStatus::InProgress { stop_index } => if stop_index < self.stops.len() {
                Some(&self.stops[stop_index])
            } else {
                None
            },
            _ => None,
        }
    }

    /// Starts or resumes the Route: a NotStarted Route starts at its first
    /// Stop, an InProgress one resumes at its current Stop (those before it
    /// are not run again); when no Stop is left it becomes Completed.
    /// A Completed or Failed Route is left exactly as it is (a failure needs
    /// a human decision, not a silent retry). Returns the Stop to run.
    pub fn resume(&mut self) -> (r: Option<usize>)
        ensures
            final(self).status == resumed(old(self).status, old(self).stops@.len()),
            final(self).stops == old(self).stops,
            final(self).dodo_id == old(self).dodo_id,
            r == stop_to_run(final(self).status),
            r matches Some(i) ==> i < final(self).stops@.len(),
    {
        let start = match self.status {
            RouteStatus::NotStarted => 0,
            RouteStatus::InProgress { stop_index } => stop_index,
            RouteStatus::Completed => return None,
            RouteStatus::Failed { .. } => return None,
        };
        if start < self.stops.len() {
            self.status = RouteStatus::InProgress { stop_index: start };
            Some(start)
        } else {
            self.status = RouteStatus::Completed;
            None
        }
    }

    /// Records how the current Stop ended. A failure marks the Route Failed
    /// at that Stop with the reason, and nothing further runs; a success
    /// moves on to the next Stop, or completes the Route after the last.
    /// Returns the Stop to run next.
    pub fn finish_stop(&mut self, outcome: Result<(), String>) -> (r: Option<usize>)
        requires
            old(self).status matches RouteStatus::InProgress { stop_index } && stop_index
                < old(self).stops@.len(),
        ensures
            final(self).stops == old(self).stops,
            final(self).dodo_id == old(self).dodo_id,
            old(self).status matches RouteStatus::InProgress { stop_index } && match outcome {
                Err(reason) => final(self).status == (RouteStatus::Failed { stop_index, reason }),
                Ok(()) => final(self).status == after_success(
                    stop_index as nat,
                    old(self).stops@.len(),
                ),
            },
            final(self).status == after_outcome(old(self).status, old(self).stops@.len(), outcome),
            r == stop_to_run(final(self).status),
            r matches Some(i) ==> i < final(self).stops@.len(),
    {
        let i = match self.status {
            RouteStatus::InProgress { stop_index } => stop_index,
            _ => 0,
        };
        match outcome {
            Err(reason) => {
                self.status = RouteStatus::Failed { stop_index: i, reason };
                None
            },
            Ok(()) => {
                assert(i < self.stops.len());
                if i + 1 < self.stops.len() {
                    self.status = RouteStatus::InProgress { stop_index: i + 1 };
                    Some(i + 1)
                } else {
                    self.status = RouteStatus::Completed;
                    None
                }
            },
        }
    }
}

/// The status reached from `s` (with `n` stops) after resuming and then
/// `k` successful stops.
pub open spec fn after_successes(s: RouteStatus, n: nat, k: nat) -> RouteStatus
    decreases k,
{
    if k == 0 {
        resumed(s, n)
    } else {
        match after_successes(s, n, (k - 1) as nat) {
            RouteStatus::InProgress { stop_index } => after_success(stop_index as nat, n),
            other => other,
        }
    }
}

/// Law: a Route resumed at Stop `start` runs Stops `start`, `start + 1`,
/// … in order (none before `start`), and once every one of them has
/// succeeded it is Completed.
pub proof fn law_successful_run_completes(start: usize, n: nat, k: nat)
    requires
        start < n,
        n <= usize::MAX,
        k <= n - start,
    ensures
        k < n - start ==> after_successes(
            RouteStatus::InProgress { stop_index: start },
            n,
            k,
        ) == (RouteStatus::InProgress { stop_index: (start + k) as usize }),
        k == n - start ==> after_successes(RouteStatus::InProgress { stop_index: start }, n, k)
            == RouteStatus::Completed,
    decreases k,
{
    if k > 0 {
        law_successful_run_completes(start, n, (k - 1) as nat);
    }
}

/// Law: a finished Route (Completed or Failed) stays as it is whatever
/// is run on it afterwards.
pub proof fn law_finished_route_stays(s: RouteStatus, n: nat, k: nat)
    requires
        s is Completed || s is Failed,
    ensures
        after_successes(s, n, k) == s,
    decreases k,
{
    if k > 0 {
        law_finished_route_stays(s, n, (k - 1) as nat);
    }
}

/// The status after the current Stop ended with `o`, as `finish_stop`
/// records it; a Route not in progress is left as it is.
pub open spec fn after_outcome(s: RouteStatus, n: nat, o: Result<(), String>) -> RouteStatus {
    match s {
        RouteStatus::InProgress { stop_index } => match o {
            Err(reason) => RouteStatus::Failed { stop_index, reason },
            Ok(()) => after_success(stop_index as nat, n),
        },
        other => other,
    }
}

/// The status of a Route (of `n` Stops) resumed from `s` whose Stops then
/// ended with `outcomes`, one after another.
pub open spec fn run_status(s: RouteStatus, n: nat, outcomes: Seq<Result<(), String>>) -> RouteStatus
    decreases outcomes.len(),
{
    if outcomes.len() == 0 {
        resumed(s, n)
    } else {
        after_outcome(run_status(s, n, outcomes.drop_last()), n, outcomes.last())
    }
}

/// Whether the first `k` outcomes all succeeded.
pub open spec fn all_succeeded(outcomes: Seq<Result<(), String>>, k: int) -> bool {
    forall|i: int| 0 <= i < k ==> #[trigger] outcomes[i] is Ok
}

proof fn lemma_run_prefix(start: usize, n: nat, outcomes: Seq<Result<(), String>>, k: int)
    requires
        start < n <= usize::MAX,
        outcomes.len() == n - start,
        0 <= k <= outcomes.len(),
    ensures
        all_succeeded(outcomes, k) ==> run_status(
            RouteStatus::InProgress { stop_index: start },
            n,
            outcomes.take(k),
        ) == if start + k < n {
            RouteStatus::InProgress { stop_index: (start + k) as usize }
        } else {
            RouteStatus::Completed
        },
        forall|j: int|
            0 <= j < k && all_succeeded(outcomes, j) && #[trigger] outcomes[j] is Err ==> run_status(
                RouteStatus::InProgress { stop_index: start },
                n,
                outcomes.take(k),
            ) == (RouteStatus::Failed { stop_index: (start + j) as usize, reason: outcomes[j]->Err_0 }),
    decreases k,
{
    let s0 = RouteStatus::InProgress { stop_index: start };
    if k > 0 {
        lemma_run_prefix(start, n, outcomes, k - 1);
        assert(outcomes.take(k).drop_last() =~= outcomes.take(k - 1));
        assert(outcomes.take(k).last() == outcomes[k - 1]);
        if all_succeeded(outcomes, k) {
            assert(all_succeeded(outcomes, k - 1));
            assert(outcomes[k - 1] is Ok);
        }
        assert forall|j: int|
            0 <= j < k && all_succeeded(outcomes, j) && #[trigger] outcomes[j] is Err implies run_status(
                s0,
                n,
                outcomes.take(k),
            ) == (RouteStatus::Failed { stop_index: (start + j) as usize, reason: outcomes[j]->Err_0 }) by {
            if j == k - 1 {
                assert(all_succeeded(outcomes, k - 1));
            } else {
                assert(run_status(s0, n, outcomes.take(k - 1)) == (RouteStatus::Failed {
                    stop_index: (start + j) as usize,
                    reason: outcomes[j]->Err_0,
                }));
            }
        }
    } else {
        assert(outcomes.take(0).len() == 0);
    }
}

proof fn lemma_run_same_start(s1: RouteStatus, s2: RouteStatus, n: nat, outcomes: Seq<Result<(), String>>)
    requires
        resumed(s1, n) == resumed(s2, n),
    ensures
        run_status(s1, n, outcomes) == run_status(s2, n, outcomes),
    decreases outcomes.len(),
{
    if outcomes.len() > 0 {
        lemma_run_same_start(s1, s2, n, outcomes.drop_last());
    }
}

/// The Stop a Route starts or resumes at.
pub open spec fn start_of(s: RouteStatus) -> int {
    match s {
        RouteStatus::InProgress { stop_index } => stop_index as int,
        _ => 0,
    }
}

/// Law: a Route that is NotStarted, or InProgress at a Stop `start` no
/// further than its end, runs its Stops in order from `start`; the run
/// ends Completed exactly when every Stop succeeded (at once when no Stop
/// is left), and otherwise ends Failed at the first Stop that failed, with
/// that Stop's reason, whatever the later Stops would have done.
pub proof fn law_run_ends_at_first_failure(s: RouteStatus, n: nat, outcomes: Seq<Result<(), String>>)
    requires
        s is NotStarted || (s matches RouteStatus::InProgress { stop_index } && stop_index <= n),
        n <= usize::MAX,
        outcomes.len() == n - start_of(s),
    ensures
        all_succeeded(outcomes, outcomes.len() as int) ==> run_status(s, n, outcomes) == RouteStatus::Completed,
        forall|j: int|
            0 <= j < outcomes.len() && all_succeeded(outcomes, j) && #[trigger] outcomes[j] is Err
                ==> run_status(s, n, outcomes)
                == (RouteStatus::Failed { stop_index: (start_of(s) + j) as usize, reason: outcomes[j]->Err_0 }),
{
    let start = start_of(s);
    if start == n {
        assert(outcomes.len() == 0);
        assert(resumed(s, n) == RouteStatus::Completed);
    } else {
        let st = start as usize;
        lemma_run_same_start(s, RouteStatus::InProgress { stop_index: st }, n, outcomes);
        lemma_run_prefix(st, n, outcomes, outcomes.len() as int);
        assert(outcomes.take(outcomes.len() as int) =~= outcomes);
    }
}

/// Why a Hop cannot do its work.
#[derive(Debug, Clone, PartialEq, Eq)]
pub enum HopError {
    /// A MoveBranch Hop with no earlier RunScript output to take the new
    /// id from.
    NoNewId,
    /// A Store Hop on a Route run without an envelope.
    NoEnvelope,
}

impl HopError {
    /// The message reported for this error.
    pub fn message(&self) -> (r: String)
        ensures
            r@ == match self {
                HopError::NoNewId => "MoveBranch hop needs a preceding RunScript hop's output to know the new id — none was produced"@,
                HopError::NoEnvelope => "Store hop needs an envelope to deliver, but this Route was run with envelope: None"@,
            },
    {
        match self {
            HopError::NoNewId => owned(
                "MoveBranch hop needs a preceding RunScript hop's output to know the new id — none was produced",
            ),
            HopError::NoEnvelope => owned(
                "Store hop needs an envelope to deliver, but this Route was run with envelope: None",
            ),
        }
    }
}

/// What the next Hop of a Stop asks for.
#[derive(Debug)]
pub enum HopAction {
    /// Run this command; report its standard output with
    /// `script_succeeded`, or fail the Stop.
    RunScript { command: String, args: Vec<String> },
    /// Re-address Nest `from_id` to `to_id`; report with `moved_to`.
    MoveBranch { from_id: String, to_id: String, merge_strategy: MergeStrategy },
    /// Store the envelope into Nest `nest_id`.
    Store { nest_id: String },
    /// The Stop fails here.
    Fail(HopError),
    /// Every Hop of the Stop has run.
    Done,
}

/// The running state of one Stop: the Nest being acted on (a MoveBranch
/// Hop changes it for the Hops after it) and the latest script output.
#[derive(Debug)]
pub struct StopRun {
    pub current_nest_id: String,
    pub last_script_output: Option<String>,
    pub next_hop: usize,
}

impl StopRun {
    /// The state before the first Hop of `stop`.
    pub fn start(stop: &Stop) -> (r: StopRun)
        ensures
            r.current_nest_id@ == stop.nest_id@,
            r.last_script_output is None,
            r.next_hop == 0,
    {
        StopRun { current_nest_id: owned(stop.nest_id.as_str()), last_script_output: None, next_hop: 0 }
    }

    /// What the next Hop asks for, moving past it. `has_envelope` says
    /// whether the Route carries an envelope to store.
    pub fn next_action(&mut self, stop: &Stop, has_envelope: bool) -> (r: HopAction)
        ensures
            final(self).current_nest_id == old(self).current_nest_id,
            final(self).last_script_output == old(self).last_script_output,
            old(self).next_hop >= stop.hops@.len() ==> r is Done && final(self).next_hop == old(
                self,
            ).next_hop,
            old(self).next_hop < stop.hops@.len() ==> final(self).next_hop == old(self).next_hop
                + 1 && match stop.hops@[old(self).next_hop as int] {
                Hop::RunScript { command, args } => r matches HopAction::RunScript {
                    command: c,
                    args: a,
                } && c@ == command@ && a@.map_values(|s: String| s@) == args@.map_values(
                    |s: String| s@,
                ),
                Hop::MoveBranch { merge_strategy } => match old(self).last_script_output {
                    None => r == HopAction::Fail(HopError::NoNewId),
                    Some(out) => r matches HopAction::MoveBranch { from_id, to_id, merge_strategy: m }
                        && from_id@ == old(self).current_nest_id@ && to_id@ == out@ && m
                        == merge_strategy,
                },
                Hop::Store => if has_envelope {
                    r matches HopAction::Store { nest_id } && nest_id@ == old(
                        self,
                    ).current_nest_id@
                } else {
                    r == HopAction::Fail(HopError::NoEnvelope)
                },
            },
    {
        if self.next_hop >= stop.hops.len() {
            return HopAction::Done;
        }
        let hop = &stop.hops[self.next_hop];
        self.next_hop = self.next_hop + 1;
        match hop {
            Hop::RunScript { command, args } => {
                let mut copied: Vec<String> = Vec::new();
                let mut i: usize = 0;
                while i < args.len()
                    invariant
                        i <= args.len(),
                        copied@.map_values(|s: String| s@) == args@.take(i as int).map_values(
                            |s: String| s@,
                        ),
                    decreases args.len() - i,
                {
                    let ghost before = copied@;
                    copied.push(owned(args[i].as_str()));
                    proof {
                        assert(copied@.map_values(|s: String| s@) =~= before.map_values(
                            |s: String| s@,
                        ).push(args@[i as int]@));
                        assert(args@.take(i + 1).map_values(|s: String| s@) =~= args@.take(
                            i as int,
                        ).map_values(|s: String| s@).push(args@[i as int]@));
                    }
                    i = i + 1;
                }
                proof {
                    assert(args@.take(args.len() as int) =~= args@);
                }
                HopAction::RunScript { command: owned(command.as_str()), args: copied }
            },
            Hop::MoveBranch { merge_strategy } => match &self.last_script_output {
                None => HopAction::Fail(HopError::NoNewId),
                Some(out) => HopAction::MoveBranch {
                    from_id: owned(self.current_nest_id.as_str()),
                    to_id: owned(out.as_str()),
                    merge_strategy: *merge_strategy,
                },
            },
            Hop::Store => if has_envelope {
                HopAction::Store { nest_id: owned(self.current_nest_id.as_str()) }
            } else {
                HopAction::Fail(HopError::NoEnvelope)
            },
        }
    }

    /// A RunScript Hop succeeded with this standard output: its trimmed
    /// text is the Stop's latest script output.
    pub fn script_succeeded(&mut self, stdout: &str)
        ensures
            final(self).last_script_output matches Some(o) && o@ == trim_ws(stdout@),
            final(self).current_nest_id == old(self).current_nest_id,
            final(self).next_hop == old(self).next_hop,
    {
        self.last_script_output = Some(trim(stdout));
    }

    /// A MoveBranch Hop succeeded: later Hops act on the Nest's new id.
    pub fn moved_to(&mut self, to_id: &str)
        ensures
            final(self).current_nest_id@ == to_id@,
            final(self).last_script_output == old(self).last_script_output,
            final(self).next_hop == old(self).next_hop,
    {
        self.current_nest_id = owned(to_id);
    }
}

} // verus!
