use slasha_server::docker::app::app_move::{app_move_steps, move_workflow_name, step_label};
use slasha_server::docker::app::deploy::runner::{step_compensation, DeployCompensation, DeployStep};
use slasha_server::docker::app_move::{move_app_to_node_steps, names_with_prefix, MoveAction, MoveCompensation};
use slasha_server::docker::deployment::executor::{build_message, is_building, reuse_message};
use slasha_server::docker::deployment::dockerfile_parser::BuildStrategy;
use slasha_server::docker::rollback::{Rollback, StepRun};
use slasha_server::models::{Deployment, DeploymentStatus, ProcessType};

fn s(v: &str) -> String {
    v.to_string()
}

fn strings(v: &[&str]) -> Vec<String> {
    v.iter().map(|x| x.to_string()).collect()
}

#[test]
fn rollback_runs_in_reverse() {
    let mut r = Rollback::new();
    r.register(1);
    r.register(2);
    r.register(3);
    assert_eq!(r.execute(), vec![3, 2, 1]);
    let empty: Rollback<u8> = Rollback::default();
    assert!(empty.execute().is_empty());
}

#[test]
fn failed_step_undoes_completed_steps_newest_first() {
    let plan = vec![("a", Some(10)), ("b", None), ("c", Some(30)), ("d", Some(40))];
    let mut run = StepRun::new(plan);
    assert_eq!(run.start_next(), Some("a"));
    run.succeeded();
    assert_eq!(run.start_next(), Some("b"));
    run.succeeded();
    assert_eq!(run.start_next(), Some("c"));
    run.succeeded();
    assert_eq!(run.start_next(), Some("d"));
    assert_eq!(run.failed(), vec![30, 10]);

    let mut run = StepRun::new(vec![("a", Some(1))]);
    assert_eq!(run.start_next(), Some("a"));
    run.succeeded();
    assert_eq!(run.start_next(), None);
    run.finish();
}

#[test]
fn volumes_are_picked_by_prefix() {
    let listed = strings(&["slasha-app-vol-a1-x", "slasha-app-vol-a10-y", "other", "slasha-app-vol-a1-z"]);
    assert_eq!(names_with_prefix(&listed, "slasha-app-vol-a1-"), strings(&["slasha-app-vol-a1-x", "slasha-app-vol-a1-z"]));
}

#[test]
fn node_move_plan() {
    let steps = move_app_to_node_steps(
        &strings(&["d1"]),
        &strings(&["slasha-app-vol-app-1", "slasha-app-vol-other-2"]),
        &strings(&["svc"]),
        &s("app"),
        &s("old"),
        &s("new"),
    );
    let actions: Vec<String> = steps.iter().map(|(a, _)| format!("{:?}", a)).collect();
    assert_eq!(
        actions,
        vec![
            format!("{:?}", MoveAction::StopDeployments(strings(&["d1"]))),
            format!("{:?}", MoveAction::MigrateAppVolume(s("slasha-app-vol-app-1"))),
            format!("{:?}", MoveAction::MigrateServiceVolume(s("slasha-svc-vol-svc"))),
            format!("{:?}", MoveAction::UpdateNode(s("new"))),
            format!("{:?}", MoveAction::CreateNetwork(s("app"))),
            format!("{:?}", MoveAction::ProvisionService(s("svc"))),
            format!("{:?}", MoveAction::TriggerDeployment),
        ]
    );
    assert_eq!(
        format!("{:?}", steps[3].1),
        format!("{:?}", Some(MoveCompensation::RestoreNode(s("old"))))
    );
    let idle = move_app_to_node_steps(&vec![], &vec![], &vec![], &s("app"), &s("old"), &s("new"));
    assert_eq!(idle.len(), 2);
}

#[test]
fn workflow_move_plan_and_labels() {
    let services = vec![(s("s1"), true), (s("s2"), false)];
    let steps = app_move_steps(true, &strings(&["d1", "d2"]), &services, &strings(&["slasha-app-vol-app-v"]), &s("app"), &s("old"), &s("new"));
    let labels: Vec<String> = steps.iter().map(|(a, _)| step_label(a)).collect();
    assert_eq!(
        labels,
        vec![
            "Stopping application containers on source host",
            "Stopping database services on source host",
            "Migrating application volume slasha-app-vol-app-v",
            "Migrating database service volume slasha-svc-vol-s1",
            "Migrating database service volume slasha-svc-vol-s2",
            "Updating host node assignment in database",
            "Creating application network on target host",
            "Re-provisioning database services on target host",
            "Starting application on target host",
        ]
    );
    assert_eq!(format!("{:?}", steps[1].0), format!("{:?}", MoveAction::StopServices(strings(&["s1"]))));
    assert_eq!(format!("{:?}", steps[8].0), format!("{:?}", MoveAction::RedeployOnTarget(s("d1"))));
    assert_eq!(move_workflow_name("shop", "node-2"), "move_app:shop:to:node-2");
}

#[test]
fn deployment_compensations() {
    let prev = strings(&["p1"]);
    let c = step_compensation(&DeployStep::BuildImage, "shop", "a1", "d1", &prev, true);
    assert_eq!(format!("{:?}", c), format!("{:?}", Some(DeployCompensation::RemoveImage(s("slasha/shop:d1")))));
    let c = step_compensation(&DeployStep::CreateContainer(ProcessType::Web, 2), "shop", "a1", "d1", &prev, true);
    assert_eq!(format!("{:?}", c), format!("{:?}", Some(DeployCompensation::RemoveContainer(s("slasha-app-ctr-a1-d1-web-2")))));
    let c = step_compensation(&DeployStep::RunRelease(s("migrate")), "shop", "a1", "d1", &prev, false);
    assert!(c.is_none());
    let c = step_compensation(&DeployStep::RunRelease(s("migrate")), "shop", "a1", "d1", &prev, true);
    assert_eq!(format!("{:?}", c), format!("{:?}", Some(DeployCompensation::RemoveContainer(s("slasha-app-ctr-a1-d1-release-0")))));
    let c = step_compensation(&DeployStep::StopPrevious, "shop", "a1", "d1", &prev, true);
    assert_eq!(format!("{:?}", c), format!("{:?}", Some(DeployCompensation::RestartPrevious(prev.clone()))));
    assert!(step_compensation(&DeployStep::Promote, "shop", "a1", "d1", &prev, true).is_none());
}

#[test]
fn executor_messages_and_building_check() {
    let d = |status| Deployment { id: s("d"), commit_sha: s("c"), status };
    assert!(is_building(&vec![d(DeploymentStatus::Running), d(DeploymentStatus::Building)]));
    assert!(!is_building(&vec![d(DeploymentStatus::Running), d(DeploymentStatus::Pending)]));
    assert!(!is_building(&vec![]));
    assert_eq!(build_message("shop", "d1", &BuildStrategy::Railpack), "Building image slasha/shop:d1 (Railpack)");
    assert_eq!(
        build_message("shop", "d1", &BuildStrategy::Dockerfile { content: s("FROM x") }),
        "Building image slasha/shop:d1 (Dockerfile)"
    );
    assert_eq!(reuse_message("slasha/shop:d0"), "Reusing retained image slasha/shop:d0");
}
