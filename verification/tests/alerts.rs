use slasha_server::alerts::delivery::{format_duration, render_default_message, render_template, shell_command_env};
use slasha_server::alerts::snapshot::{snapshot_needs, RuleSubject};
use slasha_server::alerts::evaluation::{
    evaluate_app_health_check, evaluate_cron_failed, evaluate_domain_dns, evaluate_tls_expiry, join,
};
use slasha_server::alerts::incident::{
    elapsed_secs, incident_step, notice_for, AlertNotificationKind, IncidentAction, OpenIncident,
    Timestamp,
};
use slasha_server::models::CronRunStatus;

fn at(secs: i64) -> Timestamp {
    Timestamp { secs, nanos: 0 }
}

#[test]
fn template_fills_every_placeholder() {
    let out = render_template(
        "{{alert_kind}} is {{ notification_status }}: {{value}} ({{  detail  }})",
        "93",
        "CPU usage at 93.0%",
        "triggered",
        "server_cpu",
    );
    assert_eq!(out, "server_cpu is triggered: 93 (CPU usage at 93.0%)");
}

#[test]
fn template_keeps_unknown_or_broken_placeholders() {
    assert_eq!(render_template("{{ other }} {{value}", "1", "d", "s", "k"), "{{ other }} {{value}");
    assert_eq!(render_template("{{{value}}}", "1", "d", "s", "k"), "{1}");
    assert_eq!(render_template("", "1", "d", "s", "k"), "");
    assert_eq!(render_template("{{value}}{{value}}", "ab", "d", "s", "k"), "abab");
}

#[test]
fn durations_read_in_minutes_and_hours() {
    assert_eq!(format_duration(at(0), at(59)), "less than a minute");
    assert_eq!(format_duration(at(100), at(0)), "less than a minute");
    assert_eq!(format_duration(at(0), at(60)), "1 min");
    assert_eq!(format_duration(at(0), at(3599)), "59 min");
    assert_eq!(format_duration(at(0), at(7200)), "2 hr");
    assert_eq!(format_duration(at(0), at(3 * 3600 + 5 * 60 + 9)), "3 hr 5 min");
}

#[test]
fn elapsed_seconds_truncate_toward_zero() {
    let a = Timestamp { secs: 10, nanos: 900_000_000 };
    let b = Timestamp { secs: 12, nanos: 100_000_000 };
    assert_eq!(elapsed_secs(a, b), 1);
    assert_eq!(elapsed_secs(b, a), -1);
}

#[test]
fn default_message_lines() {
    let m = render_default_message(
        AlertNotificationKind::Triggered,
        "High CPU",
        Some("93".to_string()),
        Some("90".to_string()),
        "CPU usage at 93.0%, threshold 90.0%",
        Some(at(0)),
        at(120),
    );
    assert_eq!(
        m,
        ":rotating_light: *High CPU*\n> Current: 93\n> Limit: 90\n> Detail: CPU usage at 93.0%, threshold 90.0%\n> Duration: 2 min"
    );
    let r = render_default_message(AlertNotificationKind::Resolved, "DNS", None, None, "ok", None, at(0));
    assert_eq!(r, ":white_check_mark: *DNS*\n> Detail: ok");
}

#[test]
fn incidents_open_renotify_after_cooldown_and_resolve() {
    let now = at(1000);
    assert!(matches!(incident_step(true, None, now, 300), IncidentAction::Open));
    assert!(matches!(incident_step(false, None, now, 300), IncidentAction::Nothing));
    let open = OpenIncident { opened_at: at(0), last_notified_at: Some(at(800)) };
    match incident_step(true, Some(open), now, 300) {
        IncidentAction::Touch { renotify, next_notified_at } => {
            assert!(!renotify);
            assert_eq!(next_notified_at, Some(at(800)));
        }
        _ => panic!("expected a touch"),
    }
    match incident_step(true, Some(open), at(1100), 300) {
        IncidentAction::Touch { renotify, next_notified_at } => {
            assert!(renotify);
            assert_eq!(next_notified_at, Some(at(1100)));
        }
        _ => panic!("expected a touch"),
    }
    let resolve = incident_step(false, Some(open), now, 300);
    assert!(matches!(resolve, IncidentAction::Resolve));
    let notice = notice_for(resolve, Some(open)).unwrap();
    assert_eq!(notice.kind, AlertNotificationKind::Resolved);
    assert_eq!(notice.opened_at, Some(at(0)));
    let first = notice_for(IncidentAction::Open, None).unwrap();
    assert_eq!(first.kind, AlertNotificationKind::Triggered);
    assert_eq!(first.opened_at, None);
    assert!(notice_for(IncidentAction::Touch { renotify: false, next_notified_at: None }, Some(open)).is_none());
    assert_eq!(AlertNotificationKind::Renotified.as_str(), "renotified");
}

#[test]
fn never_notified_incident_renotifies() {
    let open = OpenIncident { opened_at: at(0), last_notified_at: None };
    assert!(matches!(
        incident_step(true, Some(open), at(1), 3600),
        IncidentAction::Touch { renotify: true, .. }
    ));
}

#[test]
fn tls_verdicts() {
    let v = evaluate_tls_expiry(true, 5, 7, Some("2030-01-01 00:00:00 UTC".to_string()));
    assert!(v.triggered);
    assert_eq!(v.detail_display, "5 days remaining, expires at 2030-01-01 00:00:00 UTC");
    let v = evaluate_tls_expiry(true, -3, 7, None);
    assert!(v.triggered);
    assert_eq!(v.detail_display, "expired 3 days ago");
    assert!(!evaluate_tls_expiry(false, 1, 7, None).triggered);
    assert!(!evaluate_tls_expiry(true, 8, 7, None).triggered);
}

#[test]
fn dns_verdicts() {
    let ips = vec!["1.2.3.4".to_string(), "5.6.7.8".to_string()];
    let none: Vec<String> = vec![];
    let v = evaluate_domain_dns(true, &none, &ips, None);
    assert!(v.triggered);
    assert_eq!(v.detail_display, "DNS misconfigured or unresolved. Resolves to none, but expected 1.2.3.4, 5.6.7.8");
    let v = evaluate_domain_dns(false, &ips, &none, Some("cloudflare".to_string()));
    assert_eq!(v.detail_display, "DNS proxied through cloudflare. Resolves to 1.2.3.4, 5.6.7.8");
    let v = evaluate_domain_dns(false, &ips, &none, None);
    assert_eq!(v.detail_display, "DNS correctly configured. Resolves to expected IPs: unknown");
    assert_eq!(join(&ips, "|"), "1.2.3.4|5.6.7.8");
}

#[test]
fn health_and_cron_verdicts() {
    assert!(evaluate_app_health_check(None, "http://x").is_none());
    let v = evaluate_app_health_check(Some(false), "http://x/health").unwrap();
    assert!(v.triggered);
    assert_eq!(v.detail_display, "Failed to respond with 2xx status (error or timeout): http://x/health");
    let v = evaluate_app_health_check(Some(true), "http://x").unwrap();
    assert!(!v.triggered);
    assert_eq!(v.detail_display, "Responded with 2xx success status: http://x");
    let v = evaluate_cron_failed(Some((CronRunStatus::Failed, Some(2))));
    assert!(v.triggered);
    assert_eq!(v.detail_display, "Last run failed (exit code 2)");
    let v = evaluate_cron_failed(Some((CronRunStatus::Succeeded, None)));
    assert!(!v.triggered);
    assert_eq!(v.detail_display, "Last run succeeded");
    let v = evaluate_cron_failed(None);
    assert!(!v.triggered);
    assert_eq!(v.detail_display, "No completed runs yet");
    assert!(evaluate_cron_failed(Some((CronRunStatus::TimedOut, None))).triggered);
}

#[test]
fn snapshot_reads_each_subject_once() {
    let rules = vec![
        RuleSubject::Server,
        RuleSubject::AppMetric { app_id: "a1".to_string() },
        RuleSubject::AppMetric { app_id: "a1".to_string() },
        RuleSubject::AppHealthCheck { app_id: "a2".to_string(), url: "http://old".to_string() },
        RuleSubject::Domain { domain: "x.dev".to_string() },
        RuleSubject::AppHealthCheck { app_id: "a2".to_string(), url: "http://new".to_string() },
        RuleSubject::CronJob { cron_job_id: "c1".to_string() },
        RuleSubject::Domain { domain: "x.dev".to_string() },
    ];
    let n = snapshot_needs(&rules);
    assert_eq!(n.metric_apps, vec!["a1"]);
    assert_eq!(n.health_checks, vec![("a2".to_string(), "http://new".to_string())]);
    assert_eq!(n.domains, vec!["x.dev"]);
    assert_eq!(n.cron_jobs, vec!["c1"]);
}

#[test]
fn shell_command_environment() {
    let env = shell_command_env("High CPU", "server_cpu", "triggered", "93", "CPU at 93%");
    assert_eq!(env[0], ("SLASHA_ALERT_RULE_NAME".to_string(), "High CPU".to_string()));
    assert_eq!(env[4], ("SLASHA_ALERT_DETAIL".to_string(), "CPU at 93%".to_string()));
    assert_eq!(env.len(), 5);
}
