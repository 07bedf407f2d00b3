//! The life of an alert incident: opened when a rule triggers, touched (and
//! renotified once the cooldown has passed) while it keeps triggering, and
//! resolved when it stops.
pub use crate::models::Timestamp;
use vstd::prelude::*;

verus! {

/// The kind of notification an incident change sends.
#[derive(Clone, Copy, Debug, PartialEq, Eq, Structural)]
pub enum AlertNotificationKind {
    Triggered,
    Renotified,
    Resolved,
}

impl AlertNotificationKind {
    /// The name the kind is shown under in messages and templates.
    pub open spec fn label(self) -> Seq<char> {
        match self {
            AlertNotificationKind::Triggered => "triggered"@,
            AlertNotificationKind::Renotified => "renotified"@,
            AlertNotificationKind::Resolved => "resolved"@,
        }
    }

    /// The kind's name as a string.
    pub fn as_str(&self) -> (s: &'static str)
        ensures
            s@ == self.label(),
    {
        match self {
            AlertNotificationKind::Triggered => {
                proof {
                    reveal_strlit("triggered");
                }
                "triggered"
            },
            AlertNotificationKind::Renotified => {
                proof {
                    reveal_strlit("renotified");
                }
                "renotified"
            },
            AlertNotificationKind::Resolved => {
                proof {
                    reveal_strlit("resolved");
                }
                "resolved"
            },
        }
    }
}

/// What the worker knows of the open incident of a rule and target.
#[derive(Clone, Copy, Debug)]
pub struct OpenIncident {
    pub opened_at: Timestamp,
    pub last_notified_at: Option<Timestamp>,
}

/// What to do with the incident of a rule and target after an evaluation.
#[derive(Clone, Copy, Debug)]
pub enum IncidentAction {
    /// Not triggered and nothing open: leave everything as it is.
    Nothing,
    /// Triggered with nothing open: open an incident, notified now.
    Open,
    /// Triggered while open: keep it open, store `next_notified_at` as the
    /// time of its last notification, and renotify when `renotify` holds.
    Touch { renotify: bool, next_notified_at: Option<Timestamp> },
    /// Not triggered while open: resolve it.
    Resolve,
}

/// A notification to send after an incident change, with the time the
/// incident was opened where it was open before.
#[derive(Clone, Copy, Debug)]
pub struct Notice {
    pub kind: AlertNotificationKind,
    pub opened_at: Option<Timestamp>,
}

/// A timestamp whose sub-second part is a proper fraction.
pub open spec fn normal(t: Timestamp) -> bool {
    t.nanos < 1_000_000_000
}

/// The time from `a` to `b` in nanoseconds.
pub open spec fn nanos_between(a: Timestamp, b: Timestamp) -> int {
    (b.secs - a.secs) * 1_000_000_000 + (b.nanos - a.nanos)
}

/// The whole seconds from `a` to `b`, the fraction dropped toward zero.
pub open spec fn whole_secs_between(a: Timestamp, b: Timestamp) -> int {
    let n = nanos_between(a, b);
    if n >= 0 {
        n / 1_000_000_000
    } else {
        -((-n) / 1_000_000_000)
    }
}

/// The whole seconds from `since` to `now`, truncated toward zero as a time
/// difference counts them.
pub fn elapsed_secs(since: Timestamp, now: Timestamp) -> (s: i128)
    requires
        normal(since),
        normal(now),
    ensures
        s == whole_secs_between(since, now),
        -(u64::MAX as int) <= s <= u64::MAX,
{
    let d: i128 = now.secs as i128 - since.secs as i128;
    let n: i128 = d * 1_000_000_000 + (now.nanos as i128 - since.nanos as i128);
    assert(-(u64::MAX as int) <= d <= u64::MAX);
    assert(-(u64::MAX as int) * 1_000_000_000 - 999_999_999 <= n <= (u64::MAX as int) * 1_000_000_000 + 999_999_999);
    if n >= 0 {
        assert(n / 1_000_000_000 <= u64::MAX) by (nonlinear_arith)
            requires
                0 <= n <= (u64::MAX as int) * 1_000_000_000 + 999_999_999,
        ;
        n / 1_000_000_000
    } else {
        assert((-n) / 1_000_000_000 <= u64::MAX) by (nonlinear_arith)
            requires
                0 < -n <= (u64::MAX as int) * 1_000_000_000 + 999_999_999,
        ;
        -((-n) / 1_000_000_000)
    }
}

/// Whether an open incident last notified at `last` is due for another
/// notification at `now`: never notified, or at least `cooldown_secs` whole
/// seconds ago.
pub open spec fn due(last: Option<Timestamp>, now: Timestamp, cooldown_secs: u32) -> bool {
    match last {
        None => true,
        Some(t) => whole_secs_between(t, now) >= cooldown_secs,
    }
}

/// The action for an evaluation that did or did not trigger, given the open
/// incident of the rule and target, if any.
pub open spec fn step_spec(
    triggered: bool,
    open: Option<OpenIncident>,
    now: Timestamp,
    cooldown_secs: u32,
) -> IncidentAction {
    match open {
        None => if triggered {
            IncidentAction::Open
        } else {
            IncidentAction::Nothing
        },
        Some(inc) => if !triggered {
            IncidentAction::Resolve
        } else if due(inc.last_notified_at, now, cooldown_secs) {
            IncidentAction::Touch { renotify: true, next_notified_at: Some(now) }
        } else {
            IncidentAction::Touch { renotify: false, next_notified_at: inc.last_notified_at }
        },
    }
}

/// Decides what happens to the incident of a rule and target after an
/// evaluation at `now`.
pub fn incident_step(
    triggered: bool,
    open: Option<OpenIncident>,
    now: Timestamp,
    cooldown_secs: u32,
) -> (a: IncidentAction)
    requires
        normal(now),
        open matches Some(inc) ==> (inc.last_notified_at matches Some(t) ==> normal(t)),
    ensures
        a == step_spec(triggered, open, now, cooldown_secs),
{
    match open {
        None => if triggered {
            IncidentAction::Open
        } else {
            IncidentAction::Nothing
        },
        Some(inc) => {
            if !triggered {
                return IncidentAction::Resolve;
            }
            let renotify = match inc.last_notified_at {
                None => true,
                Some(t) => elapsed_secs(t, now) >= cooldown_secs as i128,
            };
            if renotify {
                IncidentAction::Touch { renotify: true, next_notified_at: Some(now) }
            } else {
                IncidentAction::Touch { renotify: false, next_notified_at: inc.last_notified_at }
            }
        },
    }
}

/// The notification an action sends, if any: a new incident triggers, a
/// renotified one repeats, a resolved one says so; the ones already open
/// carry their opening time.
pub open spec fn notice_spec(action: IncidentAction, open: Option<OpenIncident>) -> Option<Notice> {
    let opened_at = match open {
        Some(inc) => Some(inc.opened_at),
        None => None,
    };
    match action {
        IncidentAction::Nothing => None,
        IncidentAction::Open => Some(Notice { kind: AlertNotificationKind::Triggered, opened_at: None }),
        IncidentAction::Touch { renotify, .. } => if renotify {
            Some(Notice { kind: AlertNotificationKind::Renotified, opened_at })
        } else {
            None
        },
        IncidentAction::Resolve => Some(Notice { kind: AlertNotificationKind::Resolved, opened_at }),
    }
}

/// The notification to send after `action` was taken on `open`.
pub fn notice_for(action: IncidentAction, open: Option<OpenIncident>) -> (n: Option<Notice>)
    ensures
        n == notice_spec(action, open),
{
    let opened_at = match open {
        Some(inc) => Some(inc.opened_at),
        None => None,
    };
    match action {
        IncidentAction::Nothing => None,
        IncidentAction::Open => Some(Notice { kind: AlertNotificationKind::Triggered, opened_at: None }),
        IncidentAction::Touch { renotify, .. } => if renotify {
            Some(Notice { kind: AlertNotificationKind::Renotified, opened_at })
        } else {
            None
        },
        IncidentAction::Resolve => Some(Notice { kind: AlertNotificationKind::Resolved, opened_at }),
    }
}

/// The incident after `action` was taken on `open` at `now`: opened incidents
/// start notified now, touched ones keep their opening time and store the
/// new notification time, resolved ones are gone.
pub open spec fn after_step(
    action: IncidentAction,
    open: Option<OpenIncident>,
    now: Timestamp,
) -> Option<OpenIncident> {
    match action {
        IncidentAction::Nothing => open,
        IncidentAction::Open => Some(OpenIncident { opened_at: now, last_notified_at: Some(now) }),
        IncidentAction::Touch { next_notified_at, .. } => match open {
            Some(inc) => Some(OpenIncident { opened_at: inc.opened_at, last_notified_at: next_notified_at }),
            None => None,
        },
        IncidentAction::Resolve => None,
    }
}

/// Notifications about an incident that stays open are spaced by the
/// cooldown: when two evaluations at `t1` and then `t2` both notify, and the
/// incident was open (or opened) at `t1` and still open at `t2`, at least
/// `cooldown_secs` whole seconds lie between them.
pub proof fn lemma_notifications_spaced_by_cooldown(
    open: Option<OpenIncident>,
    t1: Timestamp,
    t2: Timestamp,
    cooldown_secs: u32,
)
    requires
        notice_spec(step_spec(true, open, t1, cooldown_secs), open) is Some,
        notice_spec(
            step_spec(true, after_step(step_spec(true, open, t1, cooldown_secs), open, t1), t2, cooldown_secs),
            after_step(step_spec(true, open, t1, cooldown_secs), open, t1),
        ) is Some,
    ensures
        whole_secs_between(t1, t2) >= cooldown_secs,
{
}

/// Every triggered evaluation leaves an incident open, and every evaluation
/// that does not trigger leaves none.
pub proof fn lemma_step_tracks_trigger(
    triggered: bool,
    open: Option<OpenIncident>,
    now: Timestamp,
    cooldown_secs: u32,
)
    ensures
        after_step(step_spec(triggered, open, now, cooldown_secs), open, now) is Some <==> triggered,
{
}

} // verus!
