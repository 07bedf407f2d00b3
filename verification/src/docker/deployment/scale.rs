//! Scaling a process type of a deployment under the deployment executor's
//! rules: no process type may go to zero replicas, and a request whose
//! replica count already matches is left alone.
use crate::docker::app::scale::{reconcile_steps, replicas_ok, ReplicaAction, ScaleError};
use crate::models::{ProcessStatus, ProcessType};
use vstd::prelude::*;

verus! {

/// Decides how to bring the replicas of `process_type` (each index once) to
/// `target_count`: release processes are never scaled and no process type
/// goes to zero; when as many replicas exist as requested nothing is done;
/// otherwise, for each index below the target in order, the missing replica
/// is created or a stopped one restarted, then every replica at or above the
/// target is removed.
pub fn scale_inner(
    process_type: ProcessType,
    target_count: u32,
    existing: &Vec<(u32, ProcessStatus)>,
) -> (r: Result<Option<Vec<ReplicaAction>>, ScaleError>)
    requires
        replicas_ok(existing@),
    ensures
        match r {
            Err(e) => e == (if process_type == ProcessType::Release {
                ScaleError::ReleaseNotScalable
            } else {
                ScaleError::ToZero
            }) && (process_type == ProcessType::Release || target_count == 0),
            Ok(None) => process_type != ProcessType::Release && target_count != 0
                && existing@.len() == target_count,
            Ok(Some(steps)) => process_type != ProcessType::Release && target_count != 0
                && existing@.len() != target_count && steps@ == reconcile_steps(
                existing@,
                target_count,
            ),
        },
{
    if process_type == ProcessType::Release {
        return Err(ScaleError::ReleaseNotScalable);
    }
    if target_count == 0 {
        return Err(ScaleError::ToZero);
    }
    if existing.len() == target_count as usize {
        return Ok(None);
    }
    let mut steps = crate::docker::app::scale::start_steps_exec(existing, target_count);
    let mut removes = crate::docker::app::scale::excess_steps_exec(existing, target_count);
    steps.append(&mut removes);
    Ok(Some(steps))
}

} // verus!
