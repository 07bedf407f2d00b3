//! What an application's deployments may be asked to do, given their state:
//! the checks made before scaling, cancelling, stopping or moving.
use crate::docker::error::DockerError;
use crate::models::{DeploymentStatus, ProcessType};
use crate::text::{chars_eq, chars_of, lit};
use vstd::prelude::*;

verus! {

/// The refusal of a request, with its reason.
pub open spec fn refused(r: Result<(), DockerError>, reason: Seq<char>) -> bool {
    r matches Err(DockerError::EnvResolveFailed(m)) && m@ == reason
}

/// The reason web replicas cannot go beyond one while backups are on.
pub open spec fn backups_single_writer() -> Seq<char> {
    "Backups require a single web instance (Litestream must be the only writer). Disable backups to scale web beyond 1."@
}

/// Whether a deployment may be scaled to `count` replicas of a process:
/// more than one web replica is refused while backups are on (the backup
/// setting is read only then, so `backups_enabled` matters only then), and
/// only a running deployment scales.
pub fn check_scale(
    process_type: ProcessType,
    count: u32,
    backups_enabled: bool,
    status: DeploymentStatus,
) -> (r: Result<(), DockerError>)
    ensures
        process_type == ProcessType::Web && count > 1 && backups_enabled ==> refused(r, backups_single_writer()),
        !(process_type == ProcessType::Web && count > 1 && backups_enabled) && status != DeploymentStatus::Running
            ==> refused(r, "Scaling is only allowed for running deployments"@),
        !(process_type == ProcessType::Web && count > 1 && backups_enabled) && status == DeploymentStatus::Running
            ==> r is Ok,
{
    if process_type == ProcessType::Web && count > 1 && backups_enabled {
        return Err(DockerError::EnvResolveFailed(lit(
            "Backups require a single web instance (Litestream must be the only writer). Disable backups to scale web beyond 1.",
        )));
    }
    if status != DeploymentStatus::Running {
        return Err(DockerError::EnvResolveFailed(lit("Scaling is only allowed for running deployments")));
    }
    Ok(())
}

fn state_refusal(status: DeploymentStatus, what: &str) -> (r: Result<(), DockerError>)
    ensures
        refused(r, "Deployment is in state '"@ + status.label() + "' and cannot be "@ + what@),
{
    let mut m = lit("Deployment is in state '");
    m.append(status.as_str());
    m.append("' and cannot be ");
    m.append(what);
    Err(DockerError::EnvResolveFailed(m))
}

/// Whether a deployment may be cancelled: only while pending or building.
pub fn check_cancel(status: DeploymentStatus) -> (r: Result<(), DockerError>)
    ensures
        (status == DeploymentStatus::Pending || status == DeploymentStatus::Building) ==> r is Ok,
        !(status == DeploymentStatus::Pending || status == DeploymentStatus::Building)
            ==> refused(r, "Deployment is in state '"@ + status.label() + "' and cannot be cancelled"@),
{
    match status {
        DeploymentStatus::Pending => Ok(()),
        DeploymentStatus::Building => Ok(()),
        _ => {
            proof {
                reveal_strlit("' and cannot be ");
                reveal_strlit("cancelled");
                reveal_strlit("' and cannot be cancelled");
            }
            let r = state_refusal(status, "cancelled");
            assert("Deployment is in state '"@ + status.label() + "' and cannot be "@ + "cancelled"@ =~= "Deployment is in state '"@ + status.label() + "' and cannot be cancelled"@);
            r
        },
    }
}

/// Whether a deployment may be stopped: only while running.
pub fn check_stop(status: DeploymentStatus) -> (r: Result<(), DockerError>)
    ensures
        status == DeploymentStatus::Running ==> r is Ok,
        status != DeploymentStatus::Running
            ==> refused(r, "Deployment is in state '"@ + status.label() + "' and cannot be stopped"@),
{
    match status {
        DeploymentStatus::Running => Ok(()),
        _ => {
            proof {
                reveal_strlit("' and cannot be ");
                reveal_strlit("stopped");
                reveal_strlit("' and cannot be stopped");
            }
            let r = state_refusal(status, "stopped");
            assert("Deployment is in state '"@ + status.label() + "' and cannot be "@ + "stopped"@ =~= "Deployment is in state '"@ + status.label() + "' and cannot be stopped"@);
            r
        },
    }
}

/// Whether an application on `current_node` may move to `target_node`:
/// not to the node it is on, and only to a ready node.
pub fn check_move(current_node: &str, target_node: &str, target_ready: bool) -> (r: Result<(), DockerError>)
    ensures
        current_node@ == target_node@ ==> refused(r, "App is already on the target node"@),
        current_node@ != target_node@ && !target_ready ==> refused(r, "Target node is not ready"@),
        current_node@ != target_node@ && target_ready ==> r is Ok,
{
    if chars_eq(chars_of(current_node).as_slice(), chars_of(target_node).as_slice()) {
        return Err(DockerError::EnvResolveFailed(lit("App is already on the target node")));
    }
    if !target_ready {
        return Err(DockerError::EnvResolveFailed(lit("Target node is not ready")));
    }
    Ok(())
}

/// Whether cancelling `deployment_id` reaches the operation under way: it
/// must be the deployment that operation is deploying.
pub fn cancels_active(active_deployment: Option<&str>, deployment_id: &str) -> (b: bool)
    ensures
        b == match active_deployment {
            Some(a) => a@ == deployment_id@,
            None => false,
        },
{
    match active_deployment {
        Some(a) => chars_eq(chars_of(a).as_slice(), chars_of(deployment_id).as_slice()),
        None => false,
    }
}

} // verus!
