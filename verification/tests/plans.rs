use slasha_server::alerts::delivery::{delivery_plan, ChannelConfig, Delivery};
use slasha_server::connections::github::webhook::{push_deployments, PushConnection};
use slasha_server::cron::scheduler::{tick_steps, TickStep};
use slasha_server::docker::app::deploy::runner::{DeployStep, ProcessTarget};
use slasha_server::docker::app::scale::{scale_plan, ReplicaAction, ScaleError};
use slasha_server::docker::cron::{cron_run_next, CronOutcome, CronRunAction, CronRunEvent};
use slasha_server::docker::deployment::executor::{
    executor_deployment_steps, executor_readiness_gate, unreachable_warning, ReadinessGate,
};
use slasha_server::docker::deployment::readiness::ReadinessOutcome;
use slasha_server::docker::env_resolver::{topo_sort_env, EnvError};
use slasha_server::models::{AppScale, CronRunStatus, ProcessStatus, ProcessType, Timestamp};

fn s(v: &str) -> String {
    v.to_string()
}

fn targets() -> Vec<ProcessTarget> {
    vec![
        ProcessTarget { process_type: ProcessType::Web, command: None, count: 1 },
        ProcessTarget { process_type: ProcessType::Worker, command: Some(s("work")), count: 1 },
    ]
}

#[test]
fn executor_never_stops_earlier_deployments_before_promoting() {
    let steps = executor_deployment_steps("a", "d", &None, &None, &None, &targets());
    assert!(!steps.contains(&DeployStep::StopPrevious));
    assert_eq!(steps.last(), Some(&DeployStep::Promote));
    assert_eq!(steps.iter().filter(|x| **x == DeployStep::Promote).count(), 1);
    assert_eq!(steps[0], DeployStep::BuildImage);
    let first_wait = steps.iter().position(|x| matches!(x, DeployStep::AwaitReady(_))).unwrap();
    let last_start = steps.iter().rposition(|x| matches!(x, DeployStep::StartContainer(_, _))).unwrap();
    assert!(last_start < first_wait);
}

#[test]
fn executor_reuses_a_retained_image() {
    let steps = executor_deployment_steps("a", "d", &Some(s("slasha/a:old")), &None, &None, &targets());
    assert_eq!(steps[0], DeployStep::ReuseImage(s("slasha/a:old")));
    assert!(!steps.contains(&DeployStep::BuildImage));
}

#[test]
fn executor_readiness_verdicts() {
    assert_eq!(executor_readiness_gate(&ReadinessOutcome::Ready { elapsed_nanos: 5 }), ReadinessGate::Passed);
    assert_eq!(executor_readiness_gate(&ReadinessOutcome::Unreachable), ReadinessGate::SkipRemaining);
    assert_eq!(
        executor_readiness_gate(&ReadinessOutcome::NotReady { reason: s("exited with 1") }),
        ReadinessGate::Failed(s("exited with 1"))
    );
    assert_eq!(
        unreachable_warning(),
        "Warning: container network is unreachable from the host; skipping readiness check"
    );
}

fn conn() -> PushConnection {
    PushConnection {
        connected: true,
        github_app: true,
        repository_default_branch: Some(s("main")),
        app_default_branch: s("main"),
        branch_update_ok: true,
        auto_deploy: true,
        latest_commit: Some(s("old")),
    }
}

#[test]
fn push_deploys_only_eligible_connections() {
    let disconnected = PushConnection { connected: false, ..conn() };
    let not_github = PushConnection { github_app: false, ..conn() };
    let sync_failed = PushConnection { repository_default_branch: None, ..conn() };
    let same_commit = PushConnection { latest_commit: Some(s("new")), ..conn() };
    let manual = PushConnection { auto_deploy: false, ..conn() };
    let conns = vec![conn(), disconnected, not_github, sync_failed, same_commit, manual];
    assert_eq!(
        push_deployments(&conns, "refs/heads/main", "new", false),
        vec![true, false, false, false, false, false]
    );
    assert_eq!(push_deployments(&vec![conn()], "refs/heads/dev", "new", false), vec![false]);
}

#[test]
fn deleting_push_deploys_nothing() {
    assert_eq!(push_deployments(&vec![conn(), conn()], "refs/heads/main", "new", true), vec![false, false]);
}

#[test]
fn failed_default_branch_update_skips_the_deployment() {
    let moved = PushConnection { app_default_branch: s("master"), ..conn() };
    let moved_failed = PushConnection { app_default_branch: s("master"), branch_update_ok: false, ..conn() };
    assert_eq!(push_deployments(&vec![moved, moved_failed], "refs/heads/main", "new", false), vec![true, false]);
}

#[test]
fn scale_plan_records_the_desired_count_first() {
    let existing = vec![(0, ProcessStatus::Running), (1, ProcessStatus::Stopped), (3, ProcessStatus::Running)];
    let (record, steps) = scale_plan(ProcessType::Worker, 2, &existing).unwrap();
    assert_eq!(record, AppScale { process_type: ProcessType::Worker, desired: 2 });
    assert_eq!(steps, Some(vec![ReplicaAction::Restart(1), ReplicaAction::Remove(3)]));
    let in_sync = vec![(0, ProcessStatus::Running)];
    assert_eq!(
        scale_plan(ProcessType::Web, 1, &in_sync),
        Ok((AppScale { process_type: ProcessType::Web, desired: 1 }, None))
    );
    assert_eq!(scale_plan(ProcessType::Web, 0, &in_sync), Err(ScaleError::WebToZero));
    assert_eq!(scale_plan(ProcessType::Release, 1, &vec![]), Err(ScaleError::ReleaseNotScalable));
}

fn ts(secs: i64) -> Timestamp {
    Timestamp { secs, nanos: 0 }
}

#[test]
fn tick_writes_the_schedule_before_any_run() {
    assert_eq!(
        tick_steps(Some(ts(100)), None, ts(100), Some(ts(160)), false),
        vec![
            TickStep::WriteSchedule { last_run_at: Some(ts(100)), next_run_at: Some(ts(160)) },
            TickStep::StartRun,
        ]
    );
    assert_eq!(
        tick_steps(Some(ts(90)), Some(ts(30)), ts(100), Some(ts(160)), true),
        vec![
            TickStep::WriteSchedule { last_run_at: Some(ts(100)), next_run_at: Some(ts(160)) },
            TickStep::RecordSkippedRun,
        ]
    );
    assert_eq!(tick_steps(Some(ts(101)), None, ts(100), Some(ts(160)), false), vec![]);
    assert_eq!(
        tick_steps(None, Some(ts(30)), ts(100), Some(ts(160)), false),
        vec![TickStep::WriteSchedule { last_run_at: Some(ts(30)), next_run_at: Some(ts(160)) }]
    );
}

#[test]
fn cron_run_record_lifecycle() {
    assert_eq!(cron_run_next(&CronRunEvent::Started, 60), CronRunAction::MarkRunning);
    assert_eq!(cron_run_next(&CronRunEvent::MarkedRunning(true), 60), CronRunAction::Execute);
    assert_eq!(cron_run_next(&CronRunEvent::MarkedRunning(false), 60), CronRunAction::Stop);
    assert_eq!(
        cron_run_next(&CronRunEvent::Executed(Ok(CronOutcome::Completed { exit_code: 0 })), 60),
        CronRunAction::MarkFinished { status: CronRunStatus::Succeeded, exit_code: Some(0), error: None }
    );
    assert_eq!(
        cron_run_next(&CronRunEvent::Executed(Ok(CronOutcome::Completed { exit_code: 3 })), 60),
        CronRunAction::MarkFinished { status: CronRunStatus::Failed, exit_code: Some(3), error: None }
    );
    assert_eq!(
        cron_run_next(&CronRunEvent::Executed(Ok(CronOutcome::TimedOut)), 60),
        CronRunAction::MarkFinished {
            status: CronRunStatus::TimedOut,
            exit_code: None,
            error: Some(s("run exceeded timeout of 60s")),
        }
    );
    assert_eq!(
        cron_run_next(&CronRunEvent::Executed(Err(s("no running deployment to run the command against"))), 60),
        CronRunAction::MarkFinished {
            status: CronRunStatus::Failed,
            exit_code: None,
            error: Some(s("no running deployment to run the command against")),
        }
    );
}

#[test]
fn alert_deliveries_in_order() {
    let channels = vec![
        ChannelConfig::Slack { webhook_url: s("https://hooks.slack.test/x") },
        ChannelConfig::Telegram { bot_token: s("123:abc"), chat_id: s("-42") },
    ];
    assert_eq!(
        delivery_plan(&Some(s("https://example.test/hook")), &Some(s("notify.sh")), &channels),
        vec![
            Delivery::PostText { url: s("https://example.test/hook") },
            Delivery::RunCommand { command: s("notify.sh") },
            Delivery::PostText { url: s("https://hooks.slack.test/x") },
            Delivery::PostChat { url: s("https://api.telegram.org/bot123:abc/sendMessage"), chat_id: s("-42") },
        ]
    );
    assert_eq!(delivery_plan(&None, &None, &vec![]), vec![]);
}

#[test]
fn circular_dependency_message() {
    let raw = vec![(s("A"), s("${{ B }}")), (s("B"), s("${{ A }}")), (s("C"), s("plain"))];
    let err = topo_sort_env(&raw).unwrap_err();
    assert_eq!(err, EnvError::CircularDependency(vec![s("A"), s("B")]));
    assert_eq!(err.message(), "Circular dependency detected among env vars: [\"A\", \"B\"]");
    assert_eq!(
        EnvError::CircularDependency(vec![s("Q\"X")]).message(),
        "Circular dependency detected among env vars: [\"Q\\\"X\"]"
    );
}
