use slasha_server::alerting::actions::{
    action_kind, channel_kind, command_timeout_secs, telegram_url, timed_out_message, ActionKind, ChannelKind,
};
use slasha_server::alerting::render_message;
use slasha_server::docker::app::deploy::release::{release_done_message, release_message, release_result};
use slasha_server::docker::app::process::{
    deployment_processes, label_filter, log_prefix, process_from_summary, started_message, ContainerSummary, LogPrefix,
};
use slasha_server::docker::app::requests::{cancels_active, check_cancel, check_move, check_scale, check_stop};
use slasha_server::docker::deployment::image_build::{
    built_message, checkout_message, docker_build_args, git_archive_args, railpack_frontend, railpack_prepare_args,
};
use slasha_server::docker::error::{default_log_config, http_answer, network_call_result, CallOutcome, DockerError, HttpAnswer};
use slasha_server::docker::registry::{evicts, ssh_address};
use slasha_server::models::{DeploymentStatus, ProcessStatus, ProcessType};
use slasha_server::text::replace_text;

fn s(v: &str) -> String {
    v.to_string()
}

#[test]
fn error_messages_and_answers() {
    assert_eq!(DockerError::ServiceNotFound(s("db")).message(), "Service \"db\" not found");
    assert_eq!(DockerError::ReleaseFailed(-2).message(), "Release command failed with exit code -2");
    assert_eq!(
        DockerError::ServiceHealthcheckTimeout(s("db"), 30).message(),
        "Service \"db\" did not become healthy within 30s"
    );
    assert_eq!(DockerError::Other(s("boom")).message(), "boom");
    assert_eq!(http_answer(&DockerError::ServiceNotFound(s("db"))), HttpAnswer::NotFound(s("db")));
    assert_eq!(
        http_answer(&DockerError::ServiceNotRunning(s("db"))),
        HttpAnswer::BadRequest(s("Service db is not running"))
    );
    assert_eq!(
        http_answer(&DockerError::ArtifactUnavailable(s("d1"))),
        HttpAnswer::BadRequest(s("Deployment d1 no longer has a retained image"))
    );
    assert_eq!(http_answer(&DockerError::BuildFailed(s("x"))), HttpAnswer::Internal);
    assert_eq!(network_call_result(CallOutcome::Done), Ok(()));
    assert_eq!(network_call_result(CallOutcome::ServerError(404, s("gone"))), Ok(()));
    assert_eq!(
        network_call_result(CallOutcome::ServerError(500, s("bad"))),
        Err(DockerError::DockerClient(s("bad")))
    );
    let c = default_log_config();
    assert_eq!(c.typ, "json-file");
    assert_eq!(c.config, vec![(s("max-size"), s("10m")), (s("max-file"), s("3"))]);
}

#[test]
fn node_addresses_and_eviction() {
    assert_eq!(ssh_address(&Some(s("deploy")), &Some(s("10.0.0.2")), Some(2222)), "ssh://deploy@10.0.0.2:2222");
    assert_eq!(ssh_address(&None, &None, None), "ssh://root@:22");
    assert!(evicts("n1", "local", false));
    assert!(!evicts("n1", "local", true));
    assert!(!evicts("local", "local", false));
}

#[test]
fn processes_from_listed_containers() {
    let web = ContainerSummary {
        names: vec![s("/slasha-app-ctr-a-d-web-0")],
        labels: vec![(s("slasha.process_type"), s("web")), (s("slasha.instance_index"), s("0"))],
        running: true,
    };
    let broken = ContainerSummary {
        names: vec![s("/x")],
        labels: vec![(s("slasha.process_type"), s("web")), (s("slasha.instance_index"), s("-1"))],
        running: true,
    };
    let nameless = ContainerSummary { names: vec![], labels: web.labels.clone(), running: false };
    let p = process_from_summary(&web).unwrap();
    assert_eq!(p.name, "slasha-app-ctr-a-d-web-0");
    assert_eq!(p.process_type, ProcessType::Web);
    assert_eq!(p.instance_index, 0);
    assert_eq!(p.status, ProcessStatus::Running);
    assert!(process_from_summary(&broken).is_none());
    assert!(process_from_summary(&nameless).is_none());
    let all = deployment_processes(&vec![broken, web, nameless]);
    assert_eq!(all.len(), 1);
    assert_eq!(log_prefix(ProcessType::Worker, 2), LogPrefix::Worker(2));
    assert_eq!(log_prefix(ProcessType::Release, 0), LogPrefix::System);
    assert_eq!(label_filter("slasha.app_id", "a1"), "slasha.app_id=a1");
    assert_eq!(started_message("c"), "Container c started");
}

#[test]
fn request_checks() {
    assert!(check_scale(ProcessType::Web, 2, true, DeploymentStatus::Running).is_err());
    assert_eq!(check_scale(ProcessType::Worker, 2, true, DeploymentStatus::Running), Ok(()));
    assert_eq!(
        check_scale(ProcessType::Web, 1, false, DeploymentStatus::Stopped),
        Err(DockerError::EnvResolveFailed(s("Scaling is only allowed for running deployments")))
    );
    assert_eq!(check_cancel(DeploymentStatus::Pending), Ok(()));
    assert_eq!(
        check_cancel(DeploymentStatus::Running),
        Err(DockerError::EnvResolveFailed(s("Deployment is in state 'running' and cannot be cancelled")))
    );
    assert_eq!(
        check_stop(DeploymentStatus::Failed),
        Err(DockerError::EnvResolveFailed(s("Deployment is in state 'failed' and cannot be stopped")))
    );
    assert_eq!(check_stop(DeploymentStatus::Running), Ok(()));
    assert_eq!(
        check_move("n1", "n1", true),
        Err(DockerError::EnvResolveFailed(s("App is already on the target node")))
    );
    assert_eq!(check_move("n1", "n2", false), Err(DockerError::EnvResolveFailed(s("Target node is not ready"))));
    assert_eq!(check_move("n1", "n2", true), Ok(()));
    assert!(cancels_active(Some("d1"), "d1"));
    assert!(!cancels_active(Some("d2"), "d1"));
    assert!(!cancels_active(None, "d1"));
}

#[test]
fn build_commands() {
    assert_eq!(git_archive_args("abc"), vec!["archive", "--format=tar", "abc"]);
    assert_eq!(
        docker_build_args("slasha/a:d", "Dockerfile", "/tmp/x", Some("img:v1")),
        vec!["build", "--progress", "plain", "-t", "slasha/a:d", "-f", "Dockerfile", "--build-arg", "BUILDKIT_SYNTAX=img:v1", "/tmp/x"]
    );
    assert_eq!(
        docker_build_args("t", "f", "c", None),
        vec!["build", "--progress", "plain", "-t", "t", "-f", "f", "c"]
    );
    assert_eq!(
        railpack_prepare_args("ctx", "plan.json", "info.json", &None),
        vec!["prepare", "ctx", "--plan-out", "plan.json", "--info-out", "info.json"]
    );
    assert_eq!(railpack_frontend(Some(s("railpack version v0.9.2\n"))), "ghcr.io/railwayapp/railpack-frontend:v0.9.2");
    assert_eq!(railpack_frontend(Some(s("  "))), "ghcr.io/railwayapp/railpack-frontend:latest");
    assert_eq!(railpack_frontend(None), "ghcr.io/railwayapp/railpack-frontend:latest");
    assert_eq!(built_message("t"), "Image built and tagged as t");
    assert_eq!(checkout_message("abc"), "Checking out commit abc to temp dir");
}

#[test]
fn release_outcomes() {
    assert_eq!(release_result(Some(0)), Ok(()));
    assert_eq!(release_result(Some(3)), Err(DockerError::ReleaseFailed(3)));
    assert_eq!(
        release_result(None),
        Err(DockerError::BuildFailed(s("Release container wait stream ended prematurely")))
    );
    assert_eq!(release_message("rake db:migrate"), "Running release command: rake db:migrate");
    assert_eq!(release_done_message(), "Release command completed successfully");
}

#[test]
fn alert_messages_and_actions() {
    let m = render_message(r#"{"message":"{{title}} on {{target}} = {{value}}{{unit}} ({{event}}): {{detail}}"}"#, "CPU", "server", "server.cpu", "87.0", "%", "high");
    assert_eq!(m, "CPU on server = 87.0% (server.cpu): high");
    let d = render_message("not json", "CPU", "server", "server.cpu", "87.0", "%", "high");
    assert_eq!(d, "\u{1f6a8} CPU alert on server: high");
    let blank = render_message(r#"{"message":"   "}"#, "Disk", "app:web", "e", "1.0", "", "full");
    assert_eq!(blank, "\u{1f6a8} Disk alert on app:web: full");
    assert_eq!(replace_text("aaa", "aa", "b"), "ba");
    assert_eq!(action_kind("webhook"), Ok(ActionKind::Webhook));
    assert_eq!(action_kind("email"), Err(s("unknown action type: email")));
    assert_eq!(channel_kind("telegram"), Ok(ChannelKind::Telegram));
    assert_eq!(channel_kind("irc"), Err(s("unknown channel kind: irc")));
    assert_eq!(telegram_url("T"), "https://api.telegram.org/botT/sendMessage");
    assert_eq!(command_timeout_secs(None), 30);
    assert_eq!(command_timeout_secs(Some(5)), 5);
    assert_eq!(timed_out_message(30), "command timed out after 30s");
}
