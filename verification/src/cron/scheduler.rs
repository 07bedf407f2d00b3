//! The cron scheduler's decision for one enabled job on each tick.
use crate::models::Timestamp;
use vstd::prelude::*;

verus! {

/// What the scheduler does with a job on a tick.
#[derive(Clone, Copy, Debug, PartialEq, Eq, Structural)]
pub enum TickAction {
    /// The job has no next run yet: compute and store it, run nothing.
    Initialize,
    /// The next run is still ahead.
    NotDue,
    /// The next run is due: advance the schedule first (last run now, next
    /// run the following one), then start a run unless one is still active.
    Fire,
}

/// Whether instant `a` comes after instant `b`.
pub open spec fn is_after(a: Timestamp, b: Timestamp) -> bool {
    a.secs > b.secs || (a.secs == b.secs && a.nanos > b.nanos)
}

/// The decision for a job whose next run is `next_run_at`, at `now`.
pub open spec fn tick_action_spec(next_run_at: Option<Timestamp>, now: Timestamp) -> TickAction {
    match next_run_at {
        None => TickAction::Initialize,
        Some(n) => if is_after(n, now) {
            TickAction::NotDue
        } else {
            TickAction::Fire
        },
    }
}

/// The scheduler's decision for a job whose next run is `next_run_at`, at `now`.
pub fn tick_action(next_run_at: Option<Timestamp>, now: Timestamp) -> (a: TickAction)
    ensures
        a == match next_run_at {
            None => TickAction::Initialize,
            Some(n) => if is_after(n, now) {
                TickAction::NotDue
            } else {
                TickAction::Fire
            },
        },
{
    match next_run_at {
        None => TickAction::Initialize,
        Some(n) => {
            if n.secs > now.secs || (n.secs == now.secs && n.nanos > now.nanos) {
                TickAction::NotDue
            } else {
                TickAction::Fire
            }
        },
    }
}

/// What a due job does once its schedule has been advanced.
#[derive(Clone, Copy, Debug, PartialEq, Eq, Structural)]
pub enum FireDecision {
    /// Create a pending run and start it.
    StartRun,
    /// A run of the job is still active: record a skipped run instead, so
    /// runs never overlap.
    RecordSkipped,
}

/// Whether a due job starts a run: not while one of its runs is active.
pub fn fire_decision(has_active_run: bool) -> (d: FireDecision)
    ensures
        d == if has_active_run {
            FireDecision::RecordSkipped
        } else {
            FireDecision::StartRun
        },
{
    if has_active_run {
        FireDecision::RecordSkipped
    } else {
        FireDecision::StartRun
    }
}

/// One action of the scheduler on a job, in the order they are taken.
#[derive(Clone, Copy, Debug, PartialEq, Eq)]
pub enum TickStep {
    /// Store the job's schedule state: when it last ran and when it runs next.
    WriteSchedule { last_run_at: Option<Timestamp>, next_run_at: Option<Timestamp> },
    /// Record a skipped run (a run of the job is still active).
    RecordSkippedRun,
    /// Create a pending scheduled run and start it.
    StartRun,
}

/// The scheduler's actions on a job at `now`, in order. `following` is the
/// next run after `now` as the schedule gives it; `has_active_run` whether
/// a run of the job is still active. A job without a next run only gets its
/// next run stored; a job not yet due gets nothing; a due job first has its
/// schedule advanced (last run now, next run the following one), so a slow
/// run never fires twice, and only then is a run recorded as skipped or
/// started.
pub fn tick_steps(
    next_run_at: Option<Timestamp>,
    last_run_at: Option<Timestamp>,
    now: Timestamp,
    following: Option<Timestamp>,
    has_active_run: bool,
) -> (r: Vec<TickStep>)
    ensures
        r@ == match tick_action_spec(next_run_at, now) {
            TickAction::Initialize => seq![TickStep::WriteSchedule { last_run_at, next_run_at: following }],
            TickAction::NotDue => Seq::<TickStep>::empty(),
            TickAction::Fire => seq![
                TickStep::WriteSchedule { last_run_at: Some(now), next_run_at: following },
                if has_active_run {
                    TickStep::RecordSkippedRun
                } else {
                    TickStep::StartRun
                },
            ],
        },
{
    let mut r: Vec<TickStep> = Vec::new();
    match tick_action(next_run_at, now) {
        TickAction::Initialize => {
            r.push(TickStep::WriteSchedule { last_run_at, next_run_at: following });
        },
        TickAction::NotDue => {},
        TickAction::Fire => {
            r.push(TickStep::WriteSchedule { last_run_at: Some(now), next_run_at: following });
            match fire_decision(has_active_run) {
                FireDecision::RecordSkipped => r.push(TickStep::RecordSkippedRun),
                FireDecision::StartRun => r.push(TickStep::StartRun),
            }
        },
    }
    assert(r@ =~= match tick_action_spec(next_run_at, now) {
        TickAction::Initialize => seq![TickStep::WriteSchedule { last_run_at, next_run_at: following }],
        TickAction::NotDue => Seq::<TickStep>::empty(),
        TickAction::Fire => seq![
            TickStep::WriteSchedule { last_run_at: Some(now), next_run_at: following },
            if has_active_run {
                TickStep::RecordSkippedRun
            } else {
                TickStep::StartRun
            },
        ],
    });
    r
}

} // verus!
