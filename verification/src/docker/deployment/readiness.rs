//! Readiness of a new web container before it takes traffic: the probe
//! settings an application chooses through its environment, and the
//! decisions of the probe loop, round by round.
use crate::text::{
    decimal, lit, parse_unsigned, parse_unsigned_exec, signed_decimal, signed_decimal_string,
    starts_with, trim, trim_vec, chars_of, string_of,
};
use crate::env_map::{env_get, env_lookup};
use vstd::prelude::*;
use vstd::string::StringExecFns;

verus! {

/// The variable that names the path the probe requests.
pub open spec fn health_check_path_env() -> Seq<char> {
    "SLASHA_HEALTH_CHECK_PATH"@
}

/// The variable that sets how long the probe may take, in seconds.
pub open spec fn health_check_timeout_env() -> Seq<char> {
    "SLASHA_HEALTH_CHECK_TIMEOUT"@
}

/// How the readiness probe runs. Durations are in whole seconds.
#[derive(Clone, Debug)]
pub struct ReadinessConfig {
    /// The path requested from the container.
    pub path: String,
    /// Whether the application chose the path.
    pub explicit_path: bool,
    /// How long the probe may take before it gives up.
    pub timeout_secs: u64,
    /// The pause between two rounds.
    pub interval_secs: u64,
    /// How long one connection attempt may take.
    pub connect_timeout_secs: u64,
    /// How long one request may take.
    pub request_timeout_secs: u64,
}

/// The default probe: path `/`, not chosen by the application, 60 seconds
/// in all, 2 seconds between rounds, 3 to connect and 5 per request.
pub open spec fn default_config_spec(c: ReadinessConfig) -> bool {
    &&& c.path@ == "/"@
    &&& !c.explicit_path
    &&& c.timeout_secs == 60
    &&& c.interval_secs == 2
    &&& c.connect_timeout_secs == 3
    &&& c.request_timeout_secs == 5
}

impl Default for ReadinessConfig {
    fn default() -> (c: Self)
        ensures
            default_config_spec(c),
    {
        proof {
            reveal_strlit("/");
        }
        ReadinessConfig {
            path: lit("/"),
            explicit_path: false,
            timeout_secs: 60,
            interval_secs: 2,
            connect_timeout_secs: 3,
            request_timeout_secs: 5,
        }
    }
}

/// The probe path for a chosen value: trimmed, with a leading `/` added
/// when it has none; nothing when the trimmed value is empty.
pub open spec fn chosen_path(v: Seq<char>) -> Option<Seq<char>> {
    let p = trim(v);
    if p.len() == 0 {
        None
    } else if starts_with(p, "/"@) {
        Some(p)
    } else {
        Some("/"@ + p)
    }
}

/// The probe timeout for a chosen value: a positive whole number of
/// seconds after trimming; anything else keeps the default.
pub open spec fn chosen_timeout(v: Seq<char>) -> Option<nat> {
    match parse_unsigned(trim(v), u64::MAX as nat) {
        Some(n) => if n > 0 { Some(n) } else { None },
        None => None,
    }
}

impl ReadinessConfig {
    /// The probe settings an application's environment chooses: the path
    /// from `SLASHA_HEALTH_CHECK_PATH` and the timeout from
    /// `SLASHA_HEALTH_CHECK_TIMEOUT`; everything else, and any value that
    /// is empty or not a positive number, keeps the default.
    pub fn from_env_map(env_map: &Vec<(String, String)>) -> (c: Self)
        ensures
            c.path@ == (match env_lookup(env_map@, health_check_path_env()) {
                Some(v) => match chosen_path(v) {
                    Some(p) => p,
                    None => "/"@,
                },
                None => "/"@,
            }),
            c.explicit_path == (match env_lookup(env_map@, health_check_path_env()) {
                Some(v) => chosen_path(v) is Some,
                None => false,
            }),
            c.timeout_secs == (match env_lookup(env_map@, health_check_timeout_env()) {
                Some(v) => match chosen_timeout(v) {
                    Some(n) => n,
                    None => 60,
                },
                None => 60,
            }),
            c.interval_secs == 2,
            c.connect_timeout_secs == 3,
            c.request_timeout_secs == 5,
    {
        let mut config = Self::default();
        proof {
            reveal_strlit("SLASHA_HEALTH_CHECK_PATH");
            reveal_strlit("SLASHA_HEALTH_CHECK_TIMEOUT");
            reveal_strlit("/");
        }
        match env_get(env_map, "SLASHA_HEALTH_CHECK_PATH") {
            Some(raw) => {
                let v = chars_of(raw.as_str());
                let p = trim_vec(v.as_slice());
                if p.len() > 0 {
                    assert("/"@ == seq!['/']);
                    if p[0] == '/' {
                        assert(p@.subrange(0, 1) == seq!['/']);
                        assert(starts_with(p@, "/"@));
                        config.path = string_of(p.as_slice());
                    } else {
                        assert(!starts_with(p@, "/"@)) by {
                            if starts_with(p@, "/"@) {
                                assert(p@.subrange(0, 1)[0] == p@[0]);
                            }
                        }
                        let mut path = lit("/");
                        path.append(string_of(p.as_slice()).as_str());
                        config.path = path;
                    }
                    config.explicit_path = true;
                }
            },
            None => {},
        }
        match env_get(env_map, "SLASHA_HEALTH_CHECK_TIMEOUT") {
            Some(raw) => {
                let v = chars_of(raw.as_str());
                let t = trim_vec(v.as_slice());
                match parse_unsigned_exec(t.as_slice(), u64::MAX) {
                    Some(secs) => {
                        if secs > 0 {
                            config.timeout_secs = secs;
                        }
                    },
                    None => {},
                }
            },
            None => {},
        }
        config
    }
}

/// Whether an HTTP status shows the container ready: 2xx and 3xx for a path
/// the application chose; with the default path a 4xx also proves that the
/// HTTP server is up.
pub fn status_indicates_ready(status: u16, explicit_path: bool) -> (b: bool)
    ensures
        b == if explicit_path {
            200 <= status < 400
        } else {
            200 <= status < 500
        },
{
    if explicit_path {
        return 200 <= status && status < 400;
    }
    200 <= status && status < 500
}

/// The result of one HTTP attempt against the container.
#[derive(Clone, Debug, PartialEq, Eq)]
pub enum Attempt {
    /// The container answered with a status that shows it ready.
    Ready,
    /// The container answered or refused, but is not ready; why.
    NotReady(String),
    /// The connection attempt timed out.
    Unreachable,
}

/// What an inspection of the container showed.
#[derive(Clone, Debug, PartialEq, Eq)]
pub enum ContainerState {
    Running,
    Restarting { restarts: i64 },
    NotRunning { exit_code: Option<i64>, restarts: i64 },
    /// The inspection failed.
    Unknown,
}

/// How the probe ended.
#[derive(Clone, Debug, PartialEq, Eq)]
pub enum ReadinessOutcome {
    /// The container answered ready after this many nanoseconds.
    Ready { elapsed_nanos: u128 },
    NotReady { reason: String },
    /// The container never answered and gave no other reason.
    Unreachable,
}

/// One round of the probe: the container's state, and the HTTP attempt
/// made when it was running.
#[derive(Clone, Debug)]
pub struct Round {
    pub state: ContainerState,
    pub attempt: Option<Attempt>,
}

/// What the probe loop does after a round.
#[derive(Clone, Debug)]
pub enum ProbeStep {
    /// Stop with this outcome.
    Finish(ReadinessOutcome),
    /// Wait for the interval and probe again, remembering this reason.
    Wait(Option<String>),
}

/// Restarts from which a restarting or stopped container counts as crash
/// looping.
pub open spec fn crash_loop_restarts() -> int {
    2
}

/// The restart count of a container that is crash looping.
pub open spec fn crash_looping(s: ContainerState) -> Option<i64> {
    match s {
        ContainerState::Restarting { restarts } => if restarts >= crash_loop_restarts() {
            Some(restarts)
        } else {
            None
        },
        ContainerState::NotRunning { restarts, .. } => if restarts >= crash_loop_restarts() {
            Some(restarts)
        } else {
            None
        },
        _ => None,
    }
}

pub open spec fn crash_loop_reason(restarts: i64) -> Seq<char> {
    "container is crash looping (restarted "@ + signed_decimal(restarts as int) + " times)"@
}

pub open spec fn opt_view(o: Option<String>) -> Option<Seq<char>> {
    match o {
        Some(s) => Some(s@),
        None => None,
    }
}

/// The reason the probe remembers after a round that neither ends it nor
/// shows the container ready.
pub open spec fn next_reason(round: Round, last: Option<Seq<char>>) -> Option<Seq<char>> {
    match round.state {
        ContainerState::Restarting { .. } => Some("container is restarting"@),
        ContainerState::NotRunning { exit_code, .. } => Some(
            match exit_code {
                Some(code) => "container exited with code "@ + signed_decimal(code as int),
                None => "container is not running"@,
            },
        ),
        ContainerState::Running => match round.attempt {
            Some(Attempt::NotReady(reason)) => Some(reason@),
            _ => last,
        },
        ContainerState::Unknown => last,
    }
}

/// The round found the container running and ready.
pub open spec fn ready_round(round: Round) -> bool {
    round.state == ContainerState::Running && round.attempt == Some(Attempt::Ready)
}

/// The probe has no time left for another round.
pub open spec fn out_of_time(config: ReadinessConfig, elapsed_nanos: u128) -> bool {
    elapsed_nanos + config.interval_secs * 1_000_000_000 >= config.timeout_secs * 1_000_000_000
}

/// The outcome when time runs out: the last reason, or unreachable.
pub open spec fn timed_out(o: ReadinessOutcome, reason: Option<Seq<char>>) -> bool {
    match reason {
        Some(r) => o matches ReadinessOutcome::NotReady { reason } && reason@ == r,
        None => o == ReadinessOutcome::Unreachable,
    }
}

/// Decides what the readiness probe does after a round observed at
/// `elapsed_nanos` since the probe started: a crash looping container fails
/// the probe at once; a ready container passes it; otherwise the probe
/// remembers why the container is not ready and, if another round fits
/// before the timeout, waits for it, else fails with the last reason (or as
/// unreachable when there is none).
pub fn probe_step(
    config: &ReadinessConfig,
    last_reason: Option<String>,
    round: Round,
    elapsed_nanos: u128,
) -> (step: ProbeStep)
    ensures
        match crash_looping(round.state) {
            Some(restarts) => step matches ProbeStep::Finish(ReadinessOutcome::NotReady { reason })
                && reason@ == crash_loop_reason(restarts),
            None => if ready_round(round) {
                step matches ProbeStep::Finish(o) && o == ReadinessOutcome::Ready { elapsed_nanos }
            } else if out_of_time(*config, elapsed_nanos) {
                step matches ProbeStep::Finish(o) && timed_out(
                    o,
                    next_reason(round, opt_view(last_reason)),
                )
            } else {
                step matches ProbeStep::Wait(r) && opt_view(r) == next_reason(
                    round,
                    opt_view(last_reason),
                )
            },
        },
{
    proof {
        reveal_strlit("container is crash looping (restarted ");
        reveal_strlit(" times)");
        reveal_strlit("container is restarting");
        reveal_strlit("container exited with code ");
        reveal_strlit("container is not running");
    }
    let crash: Option<i64> = match &round.state {
        ContainerState::Restarting { restarts } => if *restarts >= 2 {
            Some(*restarts)
        } else {
            None
        },
        ContainerState::NotRunning { restarts, .. } => if *restarts >= 2 {
            Some(*restarts)
        } else {
            None
        },
        _ => None,
    };
    if let Some(restarts) = crash {
        let mut reason = lit("container is crash looping (restarted ");
        reason.append(signed_decimal_string(restarts).as_str());
        reason.append(" times)");
        return ProbeStep::Finish(ReadinessOutcome::NotReady { reason });
    }
    let next: Option<String> = match round.state {
        ContainerState::Restarting { .. } => Some(lit("container is restarting")),
        ContainerState::NotRunning { exit_code, .. } => match exit_code {
            Some(code) => {
                let mut m = lit("container exited with code ");
                m.append(signed_decimal_string(code).as_str());
                Some(m)
            },
            None => Some(lit("container is not running")),
        },
        ContainerState::Running => match round.attempt {
            Some(Attempt::Ready) => {
                return ProbeStep::Finish(ReadinessOutcome::Ready { elapsed_nanos });
            },
            Some(Attempt::NotReady(reason)) => Some(reason),
            _ => last_reason,
        },
        ContainerState::Unknown => last_reason,
    };
    let timeout_nanos: u128 = (config.timeout_secs as u128) * 1_000_000_000;
    let interval_nanos: u128 = (config.interval_secs as u128) * 1_000_000_000;
    let finished = elapsed_nanos >= timeout_nanos || elapsed_nanos + interval_nanos >= timeout_nanos;
    if finished {
        match next {
            Some(reason) => ProbeStep::Finish(ReadinessOutcome::NotReady { reason }),
            None => ProbeStep::Finish(ReadinessOutcome::Unreachable),
        }
    } else {
        ProbeStep::Wait(next)
    }
}

/// The attempt a response status gives: ready for a status that shows it,
/// else not ready, naming the status and the path.
pub fn attempt_from_status(status: u16, config: &ReadinessConfig) -> (a: Attempt)
    ensures
        if (if config.explicit_path { 200 <= status < 400 } else { 200 <= status < 500 }) {
            a == Attempt::Ready
        } else {
            a matches Attempt::NotReady(m) && m@ == "received HTTP "@ + decimal(status as nat)
                + " from GET "@ + config.path@
        },
{
    if status_indicates_ready(status, config.explicit_path) {
        return Attempt::Ready;
    }
    let mut m = lit("received HTTP ");
    m.append(crate::text::decimal_string(status as u64).as_str());
    m.append(" from GET ");
    m.append(config.path.as_str());
    Attempt::NotReady(m)
}

} // verus!
