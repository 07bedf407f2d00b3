//! Cron schedules of scheduled jobs: the next run of a job and a preview of
//! the runs to come, as the cron-parser crate computes them in the job's
//! time zone.
pub mod schedule;
pub mod scheduler;

use crate::models::Timestamp;
use crate::text::lit;
use schedule::{parse_timezone, zone_name};
use vstd::prelude::*;
use vstd::string::StringExecFns;

verus! {

/// What `cron_parser::parse` gives for the expression at the instant `secs`
/// (and `nanos`) taken in the zone named `zone`: the next matching instant,
/// or its error message; nothing when chrono-tz knows no such zone or chrono
/// cannot represent the instant.
pub uninterp spec fn cron_parser_next(expr: Seq<char>, zone: Seq<char>, secs: int, nanos: int) -> Option<Result<Timestamp, Seq<char>>>;

/// `cron_parser::parse` of the cron-parser crate, the starting instant
/// given in the zone's `chrono_tz::Tz`, the result taken as seconds and
/// nanoseconds since the epoch and an error by its `Display` text.
#[verifier::external_body]
fn cron_parser_parse(expr: &str, zone: &str, secs: i64, nanos: u32) -> (r: Option<Result<Timestamp, String>>)
    ensures
        match r {
            None => cron_parser_next(expr@, zone@, secs as int, nanos as int) is None,
            Some(Ok(t)) => cron_parser_next(expr@, zone@, secs as int, nanos as int) == Some(Ok::<Timestamp, Seq<char>>(t)),
            Some(Err(e)) => cron_parser_next(expr@, zone@, secs as int, nanos as int) == Some(Err::<Timestamp, Seq<char>>(e@)),
        },
{
    let tz = match zone.parse::<chrono_tz::Tz>() {
        Ok(tz) => tz,
        Err(_) => return None,
    };
    let from = match chrono::DateTime::from_timestamp(secs, nanos) {
        Some(dt) => dt.with_timezone(&tz),
        None => return None,
    };
    match cron_parser::parse(expr, &from) {
        Ok(next) => Some(Ok(Timestamp { secs: next.timestamp(), nanos: next.timestamp_subsec_nanos() })),
        Err(e) => Some(Err(e.to_string())),
    }
}

pub open spec fn invalid_timezone(tz: Seq<char>) -> Seq<char> {
    "invalid timezone '"@ + tz + "'"@
}

pub open spec fn invalid_schedule(e: Seq<char>) -> Seq<char> {
    "invalid cron schedule: "@ + e
}

/// The next run of a job with the given schedule and time zone after
/// `from`: an unknown zone and an expression cron-parser refuses are errors.
pub fn next_run_at(schedule: &str, timezone: &str, from: &Timestamp) -> (r: Result<Option<Timestamp>, String>)
    ensures
        match zone_name(timezone@) {
            None => r matches Err(m) && m@ == invalid_timezone(timezone@),
            Some(_) => match cron_parser_next(schedule@, timezone@, from.secs as int, from.nanos as int) {
                None => r matches Err(m) && m@ == invalid_timezone(timezone@),
                Some(Ok(t)) => r == Ok::<Option<Timestamp>, String>(Some(t)),
                Some(Err(e)) => r matches Err(m) && m@ == invalid_schedule(e),
            },
        },
{
    match parse_timezone(timezone) {
        Err(m) => Err(m),
        Ok(_) => match cron_parser_parse(schedule, timezone, from.secs, from.nanos) {
            None => {
                let mut m = lit("invalid timezone '");
                m.append(timezone);
                m.append("'");
                Err(m)
            },
            Some(Ok(t)) => Ok(Some(t)),
            Some(Err(e)) => {
                let mut m = lit("invalid cron schedule: ");
                m.append(e.as_str());
                Err(m)
            },
        },
    }
}

/// The runs cron-parser finds one after another from `from`, at most
/// `count`, stopping at the first it cannot find.
pub open spec fn runs_from(expr: Seq<char>, zone: Seq<char>, t: Timestamp, count: nat) -> Seq<Timestamp>
    decreases count,
{
    if count == 0 {
        Seq::empty()
    } else {
        match cron_parser_next(expr, zone, t.secs as int, t.nanos as int) {
            Some(Ok(next)) => seq![next] + runs_from(expr, zone, next, (count - 1) as nat),
            _ => Seq::empty(),
        }
    }
}

/// A preview of a job's next `count` runs after `from`: an unknown zone and
/// an expression cron-parser refuses (at `from`) are errors; the preview
/// stops early where cron-parser finds no further run.
pub fn upcoming_runs(schedule: &str, timezone: &str, from: &Timestamp, count: usize) -> (r: Result<Vec<Timestamp>, String>)
    ensures
        match zone_name(timezone@) {
            None => r matches Err(m) && m@ == invalid_timezone(timezone@),
            Some(_) => match cron_parser_next(schedule@, timezone@, from.secs as int, from.nanos as int) {
                None => r matches Err(m) && m@ == invalid_timezone(timezone@),
                Some(Err(e)) => r matches Err(m) && m@ == invalid_schedule(e),
                Some(Ok(_)) => r matches Ok(runs) && runs@ == runs_from(schedule@, timezone@, *from, count as nat),
            },
        },
{
    match parse_timezone(timezone) {
        Err(m) => {
            return Err(m);
        },
        Ok(_) => {},
    }
    match cron_parser_parse(schedule, timezone, from.secs, from.nanos) {
        None => {
            let mut m = lit("invalid timezone '");
            m.append(timezone);
            m.append("'");
            return Err(m);
        },
        Some(Err(e)) => {
            let mut m = lit("invalid cron schedule: ");
            m.append(e.as_str());
            return Err(m);
        },
        Some(Ok(_)) => {},
    }
    let mut runs: Vec<Timestamp> = Vec::new();
    let mut cursor = *from;
    let mut k: usize = 0;
    while k < count
        invariant
            k <= count,
            zone_name(timezone@) is Some,
            cron_parser_next(schedule@, timezone@, from.secs as int, from.nanos as int) matches Some(Ok(_)),
            runs_from(schedule@, timezone@, *from, count as nat) == runs@ + runs_from(schedule@, timezone@, cursor, (count - k) as nat),
        decreases count - k,
    {
        match cron_parser_parse(schedule, timezone, cursor.secs, cursor.nanos) {
            Some(Ok(next)) => {
                proof {
                    assert(runs@ + (seq![next] + runs_from(schedule@, timezone@, next, (count - k - 1) as nat))
                        == runs@.push(next) + runs_from(schedule@, timezone@, next, (count - k - 1) as nat));
                }
                runs.push(next);
                cursor = next;
            },
            _ => {
                proof {
                    assert(runs@ + Seq::<Timestamp>::empty() == runs@);
                }
                return Ok(runs);
            },
        }
        k = k + 1;
    }
    proof {
        assert(runs@ + Seq::<Timestamp>::empty() == runs@);
    }
    Ok(runs)
}

} // verus!
