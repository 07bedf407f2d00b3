//! The parts of rule evaluation that do not measure: whether a domain,
//! health check or cron job is in trouble, and how its state is described.
//! (Rules on CPU, memory and load compare measured percentages and stay with
//! the worker that reads them.)
use crate::models::CronRunStatus;
use crate::text::{decimal, decimal_string, lit, signed_decimal, views};
use vstd::prelude::*;

verus! {

/// The verdict on one rule: whether it triggers, and the detail shown for it.
#[derive(Clone, Debug)]
pub struct Verdict {
    pub triggered: bool,
    pub detail_display: String,
}

/// The parts joined with `sep` between them (`[T]::join`).
pub open spec fn joined(parts: Seq<Seq<char>>, sep: Seq<char>) -> Seq<char>
    decreases parts.len(),
{
    if parts.len() == 0 {
        Seq::empty()
    } else if parts.len() == 1 {
        parts[0]
    } else {
        joined(parts.drop_last(), sep) + sep + parts.last()
    }
}

/// `parts.join(sep)`.
pub fn join(parts: &Vec<String>, sep: &str) -> (r: String)
    ensures
        r@ == joined(views(parts@), sep@),
{
    let mut r = String::new();
    let mut i: usize = 0;
    while i < parts.len()
        invariant
            i <= parts@.len(),
            r@ == joined(views(parts@.take(i as int)), sep@),
        decreases parts@.len() - i,
    {
        if i > 0 {
            r.append(sep);
        }
        r.append(parts[i].as_str());
        proof {
            let t = parts@.take(i + 1);
            assert(views(t).drop_last() =~= views(parts@.take(i as int)));
            assert(views(t).last() == parts@[i as int]@);
            if i == 0 {
                assert(views(parts@.take(0)) =~= Seq::<Seq<char>>::empty());
            }
        }
        i = i + 1;
    }
    assert(parts@.take(parts@.len() as int) =~= parts@);
    r
}

/// How a certificate's remaining validity reads: the days left, or how many
/// days ago it expired.
pub open spec fn days_text(days_until: int) -> Seq<char> {
    if days_until >= 0 {
        decimal(days_until as nat) + " days remaining"@
    } else {
        "expired "@ + decimal((-days_until) as nat) + " days ago"@
    }
}

/// The verdict on a TLS expiry rule: it triggers when the certificate is in
/// use or expired (`in_force`) and at most `days_before` days remain; the
/// detail gives the days and, when known, the expiry time as shown.
pub fn evaluate_tls_expiry(
    in_force: bool,
    days_until: i64,
    days_before: i32,
    expires_at: Option<String>,
) -> (v: Verdict)
    requires
        days_until > i64::MIN,
    ensures
        v.triggered == (in_force && days_until <= days_before),
        v.detail_display@ == match expires_at {
            Some(e) => days_text(days_until as int) + ", expires at "@ + e@,
            None => days_text(days_until as int),
        },
{
    let triggered = in_force && days_until <= days_before as i64;
    let mut days_str = if days_until >= 0 {
        let mut s = decimal_string(days_until as u64);
        s.append(" days remaining");
        s
    } else {
        let mut s = lit("expired ");
        s.append(decimal_string((-days_until) as u64).as_str());
        s.append(" days ago");
        s
    };
    match expires_at {
        Some(e) => {
            days_str.append(", expires at ");
            days_str.append(e.as_str());
        },
        None => {},
    }
    Verdict { triggered, detail_display: days_str }
}

/// A list of addresses as shown, or `fallback` when there are none.
pub open spec fn ips_text(ips: Seq<Seq<char>>, fallback: Seq<char>) -> Seq<char> {
    if ips.len() == 0 {
        fallback
    } else {
        joined(ips, ", "@)
    }
}

fn ips_display(ips: &Vec<String>, fallback: &str) -> (r: String)
    ensures
        r@ == ips_text(views(ips@), fallback@),
{
    if ips.len() == 0 {
        lit(fallback)
    } else {
        join(ips, ", ")
    }
}

/// The verdict on a DNS rule: it triggers when the domain resolves to the
/// wrong addresses or not at all (`misconfigured`); the detail names what it
/// resolves to and what was expected, or the proxy in front of it.
pub fn evaluate_domain_dns(
    misconfigured: bool,
    resolved_ips: &Vec<String>,
    expected_ips: &Vec<String>,
    proxy: Option<String>,
) -> (v: Verdict)
    ensures
        v.triggered == misconfigured,
        v.detail_display@ == {
            let resolved = ips_text(views(resolved_ips@), "none"@);
            let expected = ips_text(views(expected_ips@), "unknown"@);
            if misconfigured {
                "DNS misconfigured or unresolved. Resolves to "@ + resolved + ", but expected "@ + expected
            } else {
                match proxy {
                    Some(p) => "DNS proxied through "@ + p@ + ". Resolves to "@ + resolved,
                    None => "DNS correctly configured. Resolves to expected IPs: "@ + expected,
                }
            }
        },
{
    let resolved = ips_display(resolved_ips, "none");
    let expected = ips_display(expected_ips, "unknown");
    let detail_display = if misconfigured {
        let mut s = lit("DNS misconfigured or unresolved. Resolves to ");
        s.append(resolved.as_str());
        s.append(", but expected ");
        s.append(expected.as_str());
        s
    } else {
        match proxy {
            Some(p) => {
                let mut s = lit("DNS proxied through ");
                s.append(p.as_str());
                s.append(". Resolves to ");
                s.append(resolved.as_str());
                s
            },
            None => {
                let mut s = lit("DNS correctly configured. Resolves to expected IPs: ");
                s.append(expected.as_str());
                s
            },
        }
    };
    Verdict { triggered: misconfigured, detail_display }
}

/// The verdict on a health-check rule, once the check has run (`None` when
/// it has not): it triggers when the URL did not answer with a 2xx status.
pub fn evaluate_app_health_check(healthy: Option<bool>, url: &str) -> (v: Option<Verdict>)
    ensures
        match healthy {
            None => v is None,
            Some(h) => v matches Some(r) && r.triggered == !h && r.detail_display@ == (if h {
                "Responded with 2xx success status: "@ + url@
            } else {
                "Failed to respond with 2xx status (error or timeout): "@ + url@
            }),
        },
{
    let h = match healthy {
        None => return None,
        Some(h) => h,
    };
    let mut detail_display = if h {
        lit("Responded with 2xx success status: ")
    } else {
        lit("Failed to respond with 2xx status (error or timeout): ")
    };
    detail_display.append(url);
    Some(Verdict { triggered: !h, detail_display })
}

/// The verdict on a cron rule from the job's latest finished run (status
/// and exit code), if any: it triggers when that run failed or timed out.
pub fn evaluate_cron_failed(latest: Option<(CronRunStatus, Option<i64>)>) -> (v: Verdict)
    ensures
        match latest {
            None => !v.triggered && v.detail_display@ == "No completed runs yet"@,
            Some((status, code)) => {
                &&& v.triggered == (status == CronRunStatus::Failed || status == CronRunStatus::TimedOut)
                &&& v.detail_display@ == match code {
                    Some(c) => "Last run "@ + status.label() + " (exit code "@ + signed_decimal(c as int) + ")"@,
                    None => "Last run "@ + status.label(),
                }
            },
        },
{
    match latest {
        None => Verdict { triggered: false, detail_display: lit("No completed runs yet") },
        Some((status, code)) => {
            let failed = match status {
                CronRunStatus::Failed | CronRunStatus::TimedOut => true,
                _ => false,
            };
            let mut d = lit("Last run ");
            d.append(status.as_str());
            match code {
                Some(c) => {
                    d.append(" (exit code ");
                    d.append(crate::text::signed_decimal_string(c).as_str());
                    d.append(")");
                },
                None => {},
            }
            Verdict { triggered: failed, detail_display: d }
        },
    }
}

} // verus!
