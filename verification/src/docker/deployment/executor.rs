//! Decisions of the deployment executor that do not touch Docker: whether a
//! new deployment may start, and what its log says about the image.
use crate::docker::app::deploy::runner::{
    deployment_steps, deployment_steps_spec, kinds, lemma_previous_serves_until_promoted,
    replicas_of_targets, DeployStep, ProcessTarget, StepKind,
};
use crate::docker::deployment::dockerfile_parser::BuildStrategy;
use crate::docker::deployment::procfile_parser::{command_of, Procfile};
use crate::docker::deployment::readiness::ReadinessOutcome;
use crate::models::{AppBackup, ProcessType};
use crate::models::{Deployment, DeploymentStatus};
use crate::text::lit;
use vstd::prelude::*;

verus! {

/// The port a web process listens on when neither `PORT` nor an `EXPOSE`
/// line says otherwise.
pub const DEFAULT_CONTAINER_PORT: u16 = 8080;

/// Whether one of the deployments is building.
pub open spec fn any_building(active: Seq<Deployment>) -> bool {
    exists|i: int| 0 <= i < active.len() && active[i].status == DeploymentStatus::Building
}

/// Whether one of the application's active deployments is building; a new
/// deployment or rollback is refused while one is.
pub fn is_building(active: &Vec<Deployment>) -> (b: bool)
    ensures
        b == any_building(active@),
{
    let mut i: usize = 0;
    while i < active.len()
        invariant
            i <= active@.len(),
            forall|j: int| 0 <= j < i ==> active@[j].status != DeploymentStatus::Building,
        decreases active@.len() - i,
    {
        if active[i].status == DeploymentStatus::Building {
            return true;
        }
        i = i + 1;
    }
    false
}

/// The log line that announces a build:
/// `Building image slasha/<app>:<deployment> (<strategy>)`.
pub fn build_message(app_slug: &str, deployment_id: &str, strategy: &BuildStrategy) -> (m: String)
    ensures
        m@ == "Building image slasha/"@ + app_slug@ + ":"@ + deployment_id@ + " ("@ + (match strategy {
            BuildStrategy::Dockerfile { .. } => "Dockerfile"@,
            BuildStrategy::Railpack => "Railpack"@,
        }) + ")"@,
{
    let mut m = lit("Building image slasha/");
    m.append(app_slug);
    m.append(":");
    m.append(deployment_id);
    m.append(" (");
    m.append(strategy.name().as_str());
    m.append(")");
    m
}

/// The log line that announces a reused image: `Reusing retained image <image>`.
pub fn reuse_message(source_image: &str) -> (m: String)
    ensures
        m@ == "Reusing retained image "@ + source_image@,
{
    let mut m = lit("Reusing retained image ");
    m.append(source_image);
    m
}

/// The steps the executor takes for a deployment, in order: reuse
/// `source_image` or build; run the release command of the `Procfile` if it
/// has one; create, then start, every replica; wait for each web replica to
/// answer; record a pending database restore as done; and finally promote
/// (which marks the earlier deployments stopped, then stops and removes
/// them). No step before the promotion stops an earlier deployment, so when
/// the readiness gate fails, the old release keeps serving.
pub fn executor_deployment_steps(
    app_id: &str,
    deployment_id: &str,
    source_image: &Option<String>,
    procfile: &Option<Procfile>,
    backup: &Option<AppBackup>,
    targets: &Vec<ProcessTarget>,
) -> (r: Vec<DeployStep>)
    ensures
        kinds(r@) == deployment_steps_spec(
            app_id@,
            deployment_id@,
            *source_image,
            match procfile {
                Some(pf) => command_of(pf.commands@, ProcessType::Release),
                None => None,
            },
            false,
            replicas_of_targets(targets@),
            match backup {
                Some(b) => b.enabled && b.restore_pending,
                None => false,
            },
        ),
        kinds(r@).len() > 0,
        kinds(r@).last() == StepKind::Promote,
        forall|i: int| 0 <= i < kinds(r@).len() - 1 ==> !(#[trigger] kinds(r@)[i] is Promote),
        forall|i: int| 0 <= i < kinds(r@).len() ==> !(#[trigger] kinds(r@)[i] is StopPrevious),
{
    let r = deployment_steps(app_id, deployment_id, source_image, procfile, false, false, backup, targets);
    proof {
        lemma_previous_serves_until_promoted(
            app_id@,
            deployment_id@,
            *source_image,
            match procfile {
                Some(pf) => command_of(pf.commands@, ProcessType::Release),
                None => None,
            },
            false,
            replicas_of_targets(targets@),
            match backup {
                Some(b) => b.enabled && b.restore_pending,
                None => false,
            },
        );
    }
    r
}

/// What the executor's readiness gate makes of one web replica's probe.
#[derive(Clone, Debug, PartialEq, Eq)]
pub enum ReadinessGate {
    /// The replica answered: go on with the next one.
    Passed,
    /// The container network cannot be reached from the host: skip the
    /// remaining readiness checks (with a warning) and go on to promote.
    SkipRemaining,
    /// The replica is not ready: the deployment fails with this reason
    /// before anything of the earlier deployments is touched.
    Failed(String),
}

/// The executor's verdict on one probe: ready passes, unreachable skips the
/// remaining checks, not ready fails with the probe's reason.
pub fn executor_readiness_gate(outcome: &ReadinessOutcome) -> (g: ReadinessGate)
    ensures
        match outcome {
            ReadinessOutcome::Ready { .. } => g == ReadinessGate::Passed,
            ReadinessOutcome::Unreachable => g == ReadinessGate::SkipRemaining,
            ReadinessOutcome::NotReady { reason } => g matches ReadinessGate::Failed(m) && m@ == reason@,
        },
{
    match outcome {
        ReadinessOutcome::Ready { .. } => ReadinessGate::Passed,
        ReadinessOutcome::Unreachable => ReadinessGate::SkipRemaining,
        ReadinessOutcome::NotReady { reason } => ReadinessGate::Failed(reason.clone()),
    }
}

/// The warning logged when the readiness checks are skipped.
pub fn unreachable_warning() -> (m: String)
    ensures
        m@ == "Warning: container network is unreachable from the host; skipping readiness check"@,
{
    lit("Warning: container network is unreachable from the host; skipping readiness check")
}

} // verus!
