//! Running one cron job: which image it runs in, what its container is
//! created with, and how the container's end becomes the run's status.
use crate::docker::app::deploy::create::{RestartPolicyName, VolumeMount};
use crate::docker::app::image::{image_tag, image_tag_spec};
use crate::docker::labels::{cron_container_labels, label_views};
use crate::docker::naming::{app_network_name, app_volume_name, app_volume_name_spec, cron_container_name};
use crate::models::{App, CronRunStatus, CronRuntime, Deployment, DeploymentStatus};
use crate::text::{lit};
use vstd::prelude::*;
use vstd::string::StringExecFns;

verus! {

/// The image the utility runtime runs commands in.
pub open spec fn utility_image() -> Seq<char> {
    "curlimages/curl:latest"@
}

/// The first running deployment, if any.
pub open spec fn first_running(ds: Seq<Deployment>, i: int) -> Option<Deployment>
    decreases ds.len() - i,
{
    if i < 0 || i >= ds.len() {
        None
    } else if ds[i].status == DeploymentStatus::Running {
        Some(ds[i])
    } else {
        first_running(ds, i + 1)
    }
}

/// The deployment a cron run is pointed at is a running one, and the first
/// such: when one is found, it is the deployment at some index `k` from `i`
/// on, its status is `Running`, and no deployment between `i` and `k` is
/// running; nothing is found exactly when none from `i` on is running.
pub proof fn lemma_first_running_is_running(ds: Seq<Deployment>, i: int) -> (k: int)
    requires
        0 <= i,
    ensures
        first_running(ds, i) is Some ==> i <= k < ds.len() && first_running(ds, i) == Some(ds[k])
            && ds[k].status == DeploymentStatus::Running,
        first_running(ds, i) is Some ==> forall|j: int| i <= j < k ==> (#[trigger] ds[j]).status != DeploymentStatus::Running,
        first_running(ds, i) is None <==> forall|j: int| i <= j < ds.len() ==> (#[trigger] ds[j]).status != DeploymentStatus::Running,
    decreases ds.len() - i,
{
    if i >= ds.len() {
        -1
    } else if ds[i].status == DeploymentStatus::Running {
        i
    } else {
        let k = lemma_first_running_is_running(ds, i + 1);
        assert forall|j: int| i <= j < ds.len() && (#[trigger] ds[j]).status == DeploymentStatus::Running implies first_running(ds, i + 1) is Some by {
            if j > i {
            }
        }
        k
    }
}

/// The id of the first running deployment among the active ones.
pub fn running_deployment_id(active: &Vec<Deployment>) -> (r: Option<String>)
    ensures
        match first_running(active@, 0) {
            Some(d) => r matches Some(id) && id@ == d.id@,
            None => r is None,
        },
{
    let mut i: usize = 0;
    while i < active.len()
        invariant
            i <= active@.len(),
            first_running(active@, 0) == first_running(active@, i as int),
        decreases active@.len() - i,
    {
        if active[i].status == DeploymentStatus::Running {
            return Some(active[i].id.clone());
        }
        i = i + 1;
    }
    None
}

/// The image a cron run uses: the running deployment's image for the app
/// runtime (there must be one), the utility image otherwise.
pub fn cron_image(runtime: CronRuntime, app_slug: &str, running_deployment: &Option<String>) -> (r: Result<String, String>)
    ensures
        match runtime {
            CronRuntime::App => match running_deployment {
                Some(d) => r matches Ok(i) && i@ == image_tag_spec(app_slug@, d@),
                None => r matches Err(m) && m@ == "no running deployment to run the command against"@,
            },
            CronRuntime::Utility => r matches Ok(i) && i@ == utility_image(),
        },
{
    match runtime {
        CronRuntime::App => match running_deployment {
            Some(d) => Ok(image_tag(app_slug, d.as_str())),
            None => Err(lit("no running deployment to run the command against")),
        },
        CronRuntime::Utility => Ok(lit("curlimages/curl:latest")),
    }
}

/// What a cron run's container is created with.
#[derive(Clone, Debug)]
pub struct CronContainerSpec {
    pub name: String,
    pub image: String,
    pub labels: Vec<(String, String)>,
    pub env: Vec<(String, String)>,
    pub entrypoint: Vec<String>,
    pub cmd: Vec<String>,
    pub restart_policy: RestartPolicyName,
    pub mounts: Vec<VolumeMount>,
    pub networks: Vec<String>,
}

/// The container of a cron run: named after the run, labelled with the job
/// and the run, running the command through `sh -c` once (never
/// restarted), with the application's `/data` volume in the app runtime, on
/// the application's network and the proxy network.
pub fn cron_container_spec(
    app: &App,
    cron_job_id: &str,
    cron_run_id: &str,
    runtime: CronRuntime,
    image: &str,
    command: &str,
    env: Vec<(String, String)>,
    proxy_network: &str,
) -> (r: CronContainerSpec)
    ensures
        r.name@ == "slasha-cron-"@ + cron_run_id@,
        r.image@ == image@,
        label_views(r.labels@) == seq![
            ("slasha.managed"@, "true"@),
            ("slasha.app_id"@, app.id@),
            ("slasha.app_slug"@, app.slug@),
            ("slasha.cron_job_id"@, cron_job_id@),
            ("slasha.cron_run_id"@, cron_run_id@),
            ("slasha.process_type"@, "cron"@),
        ],
        r.env@ == env@,
        r.entrypoint@.map_values(|x: String| x@) == seq!["sh"@, "-c"@],
        r.cmd@.map_values(|x: String| x@) == seq![command@],
        r.restart_policy == RestartPolicyName::No,
        match runtime {
            CronRuntime::App => r.mounts@.len() == 1 && r.mounts@[0].source@ == app_volume_name_spec(app.id@, "/data"@)
                && r.mounts@[0].target@ == "/data"@ && !r.mounts@[0].read_only,
            CronRuntime::Utility => r.mounts@.len() == 0,
        },
        r.networks@.map_values(|x: String| x@) == seq!["slasha-app-net-"@ + app.id@, proxy_network@],
{
    let mut mounts: Vec<VolumeMount> = Vec::new();
    match runtime {
        CronRuntime::App => {
            mounts.push(VolumeMount { source: app_volume_name(app.id.as_str(), "/data"), target: lit("/data"), read_only: false });
        },
        CronRuntime::Utility => {},
    }
    let mut entrypoint: Vec<String> = Vec::new();
    entrypoint.push(lit("sh"));
    entrypoint.push(lit("-c"));
    let mut cmd: Vec<String> = Vec::new();
    cmd.push(lit(command));
    let mut networks: Vec<String> = Vec::new();
    networks.push(app_network_name(app.id.as_str()));
    networks.push(lit(proxy_network));
    proof {
        assert(entrypoint@.map_values(|x: String| x@) =~= seq!["sh"@, "-c"@]);
        assert(cmd@.map_values(|x: String| x@) =~= seq![command@]);
        assert(networks@.map_values(|x: String| x@) =~= seq!["slasha-app-net-"@ + app.id@, proxy_network@]);
    }
    CronContainerSpec {
        name: cron_container_name(cron_run_id),
        image: lit(image),
        labels: cron_container_labels(app, cron_job_id, cron_run_id),
        env,
        entrypoint,
        cmd,
        restart_policy: RestartPolicyName::No,
        mounts,
        networks,
    }
}

/// How waiting for a cron container ended.
#[derive(Clone, Copy, Debug, PartialEq, Eq, Structural)]
pub enum WaitResult {
    /// The container exited with this status code.
    Exited(i64),
    /// Waiting failed.
    WaitFailed,
    /// The wait ended without a result.
    NoResult,
    /// The timeout passed first.
    TimedOut,
}

/// What a cron run came to.
#[derive(Clone, Copy, Debug, PartialEq, Eq, Structural)]
pub enum CronOutcome {
    Completed { exit_code: i64 },
    TimedOut,
}

/// The outcome of a run from how waiting for its container ended: an exit
/// code when it exited, -1 when waiting failed or gave nothing.
pub fn cron_outcome(wait: WaitResult) -> (o: CronOutcome)
    ensures
        o == match wait {
            WaitResult::Exited(code) => CronOutcome::Completed { exit_code: code },
            WaitResult::WaitFailed => CronOutcome::Completed { exit_code: -1i64 },
            WaitResult::NoResult => CronOutcome::Completed { exit_code: -1i64 },
            WaitResult::TimedOut => CronOutcome::TimedOut,
        },
{
    match wait {
        WaitResult::Exited(code) => CronOutcome::Completed { exit_code: code },
        WaitResult::WaitFailed => CronOutcome::Completed { exit_code: -1i64 },
        WaitResult::NoResult => CronOutcome::Completed { exit_code: -1i64 },
        WaitResult::TimedOut => CronOutcome::TimedOut,
    }
}

/// How long a run may take: the job's timeout, at least one second.
pub fn run_timeout_secs(timeout_secs: i32) -> (t: u64)
    ensures
        t == if timeout_secs < 1 { 1 } else { timeout_secs as u64 },
{
    if timeout_secs < 1 {
        1
    } else {
        timeout_secs as u64
    }
}

/// Whether `status`, `exit_code` and `error` are what a run that came to
/// `result` is finished with: success for exit code 0, failure for any other
/// code (kept as an `i32`, as stored); a timeout names the job's limit; an
/// error before the command ran is the run's error.
pub open spec fn finished_as(
    result: Result<CronOutcome, String>,
    timeout_secs: i32,
    status: CronRunStatus,
    exit_code: Option<i32>,
    error: Option<String>,
) -> bool {
    match result {
        Ok(CronOutcome::Completed { exit_code: code }) => status == (if code == 0 {
            CronRunStatus::Succeeded
        } else {
            CronRunStatus::Failed
        }) && exit_code == Some(code as i32) && error is None,
        Ok(CronOutcome::TimedOut) => {
            &&& status == CronRunStatus::TimedOut
            &&& exit_code is None
            &&& error matches Some(m) && m@ == "run exceeded timeout of "@ + crate::text::signed_decimal(timeout_secs as int) + "s"@
        },
        Err(e) => {
            &&& status == CronRunStatus::Failed
            &&& exit_code is None
            &&& error matches Some(m) && m@ == e@
        },
    }
}

/// The status, exit code and error a run is finished with: success for exit
/// code 0, failure for any other code (kept as an `i32`, as stored); a
/// timeout names the job's limit; an error before the command ran is the
/// run's error.
pub fn run_finish_state(result: &Result<CronOutcome, String>, timeout_secs: i32) -> (r: (CronRunStatus, Option<i32>, Option<String>))
    ensures
        finished_as(*result, timeout_secs, r.0, r.1, r.2),
{
    match result {
        Ok(CronOutcome::Completed { exit_code }) => {
            let status = if *exit_code == 0 {
                CronRunStatus::Succeeded
            } else {
                CronRunStatus::Failed
            };
            (status, Some(*exit_code as i32), None)
        },
        Ok(CronOutcome::TimedOut) => {
            let mut m = lit("run exceeded timeout of ");
            m.append(crate::text::signed_decimal_string(timeout_secs as i64).as_str());
            m.append("s");
            (CronRunStatus::TimedOut, None, Some(m))
        },
        Err(e) => (CronRunStatus::Failed, None, Some(e.clone())),
    }
}

/// What happened last while running a cron job's run.
#[derive(Debug)]
pub enum CronRunEvent {
    /// The run was handed over to be run.
    Started,
    /// Storing the run as running succeeded (`true`) or failed (`false`).
    MarkedRunning(bool),
    /// The command ran to an outcome, or failed before or while running.
    Executed(Result<CronOutcome, String>),
}

/// What to do next for a cron job's run.
#[derive(Clone, Debug, PartialEq, Eq)]
pub enum CronRunAction {
    /// Store the run as running, with the current time as its start.
    MarkRunning,
    /// Run the job's command in a container.
    Execute,
    /// Store the run as finished with this status, exit code and error.
    MarkFinished { status: CronRunStatus, exit_code: Option<i32>, error: Option<String> },
    /// Nothing more is done for the run.
    Stop,
}

/// The life of a run's record: it is first stored as running; only when
/// that succeeded does the command run, and the record is then stored as
/// finished with what the run came to. When storing it as running fails,
/// nothing is run and nothing more is stored.
pub fn cron_run_next(event: &CronRunEvent, timeout_secs: i32) -> (a: CronRunAction)
    ensures
        match event {
            CronRunEvent::Started => a == CronRunAction::MarkRunning,
            CronRunEvent::MarkedRunning(ok) => a == (if *ok { CronRunAction::Execute } else { CronRunAction::Stop }),
            CronRunEvent::Executed(result) => a matches CronRunAction::MarkFinished { status, exit_code, error }
                && finished_as(*result, timeout_secs, status, exit_code, error),
        },
{
    match event {
        CronRunEvent::Started => CronRunAction::MarkRunning,
        CronRunEvent::MarkedRunning(ok) => {
            if *ok {
                CronRunAction::Execute
            } else {
                CronRunAction::Stop
            }
        },
        CronRunEvent::Executed(result) => {
            let (status, exit_code, error) = run_finish_state(result, timeout_secs);
            CronRunAction::MarkFinished { status, exit_code, error }
        },
    }
}

} // verus!
