use slasha_server::docker::app::scale::{
    existing_process_replicas, scale_deployment_process, ReplicaAction, ScaleError,
};
use slasha_server::docker::deployment::scale::scale_inner;
use slasha_server::models::{ProcessContainer, ProcessStatus, ProcessType};

fn pc(t: ProcessType, i: u32, s: ProcessStatus) -> ProcessContainer {
    ProcessContainer { name: format!("c{}", i), process_type: t, instance_index: i, status: s }
}

#[test]
fn refuses_release_and_web_to_zero() {
    assert_eq!(scale_deployment_process(ProcessType::Release, 2, &vec![]), Err(ScaleError::ReleaseNotScalable));
    assert_eq!(scale_deployment_process(ProcessType::Web, 0, &vec![]), Err(ScaleError::WebToZero));
    assert_eq!(ScaleError::WebToZero.message(), "Cannot scale web process to 0");
    assert_eq!(ScaleError::ReleaseNotScalable.message(), "Cannot scale release processes");
    assert_eq!(scale_inner(ProcessType::Worker, 0, &vec![]), Err(ScaleError::ToZero));
    assert_eq!(ScaleError::ToZero.message(), "Cannot scale to 0");
}

#[test]
fn worker_may_scale_to_zero_in_app_rules() {
    let existing = vec![(0, ProcessStatus::Running), (1, ProcessStatus::Stopped)];
    assert_eq!(
        scale_deployment_process(ProcessType::Worker, 0, &existing),
        Ok(Some(vec![ReplicaAction::Remove(0), ReplicaAction::Remove(1)]))
    );
}

#[test]
fn in_sync_does_nothing() {
    let existing = vec![(1, ProcessStatus::Running), (0, ProcessStatus::Running)];
    assert_eq!(scale_deployment_process(ProcessType::Web, 2, &existing), Ok(None));
}

#[test]
fn reconcile_creates_restarts_and_removes() {
    let existing = vec![(1, ProcessStatus::Stopped), (4, ProcessStatus::Running), (2, ProcessStatus::Running)];
    assert_eq!(
        scale_deployment_process(ProcessType::Web, 3, &existing),
        Ok(Some(vec![
            ReplicaAction::Create(0),
            ReplicaAction::Restart(1),
            ReplicaAction::Remove(4),
        ]))
    );
}

#[test]
fn executor_rules_skip_when_count_matches() {
    // Same number of replicas as requested: left alone even though one is stopped.
    let existing = vec![(0, ProcessStatus::Stopped), (1, ProcessStatus::Running)];
    assert_eq!(scale_inner(ProcessType::Worker, 2, &existing), Ok(None));
    assert_eq!(
        scale_inner(ProcessType::Worker, 1, &existing),
        Ok(Some(vec![ReplicaAction::Restart(0), ReplicaAction::Remove(1)]))
    );
}

#[test]
fn replicas_of_one_type_last_container_wins() {
    let listing = vec![
        pc(ProcessType::Web, 0, ProcessStatus::Stopped),
        pc(ProcessType::Worker, 0, ProcessStatus::Running),
        pc(ProcessType::Web, 1, ProcessStatus::Running),
        pc(ProcessType::Web, 0, ProcessStatus::Running),
    ];
    assert_eq!(
        existing_process_replicas(&listing, ProcessType::Web),
        vec![(1, ProcessStatus::Running), (0, ProcessStatus::Running)]
    );
    assert_eq!(
        existing_process_replicas(&listing, ProcessType::Worker),
        vec![(0, ProcessStatus::Running)]
    );
}
