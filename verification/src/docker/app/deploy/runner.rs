//! The order of a deployment's steps: build or reuse the image, run the
//! release command, stop the previous deployment first when the application
//! keeps state, create and start every replica, wait for the web replicas
//! to answer, and only then make the deployment the running one.
use crate::docker::deployment::procfile_parser::{command_of, Procfile};
use crate::docker::deployment::readiness::ReadinessOutcome;
use crate::docker::naming::{process_container_name, process_container_name_spec};
use crate::models::{AppBackup, AppScale, Deployment, ProcessType};
use crate::text::{chars_eq, chars_of, decimal, decimal_string, lit};
use vstd::prelude::*;
use vstd::string::StringExecFns;

verus! {

/// How many replicas of a process type to run, and its command.
#[derive(Clone, Debug, PartialEq, Eq)]
pub struct ProcessTarget {
    pub process_type: ProcessType,
    pub command: Option<String>,
    pub count: u32,
}

/// The desired replicas of `p` in the first scale setting for it, else one.
pub open spec fn desired_count(scales: Seq<AppScale>, p: ProcessType) -> u32
    decreases scales.len(),
{
    if scales.len() == 0 {
        1
    } else if scales[0].process_type == p {
        scales[0].desired as u32
    } else {
        desired_count(scales.drop_first(), p)
    }
}

/// The targets for the `Procfile`'s commands: every process type but
/// release, in the `Procfile`'s order, with its command and desired count.
pub open spec fn targets_of(commands: Seq<(ProcessType, String)>, scales: Seq<AppScale>) -> Seq<(ProcessType, Option<Seq<char>>, u32)>
    decreases commands.len(),
{
    if commands.len() == 0 {
        Seq::empty()
    } else {
        let prev = targets_of(commands.drop_last(), scales);
        let (p, c) = commands.last();
        if p == ProcessType::Release {
            prev
        } else {
            prev.push((p, Some(c@), desired_count(scales, p)))
        }
    }
}

/// The targets are the `Procfile`'s long-running commands: no target is the
/// release process (it runs once, before the replicas start); each target
/// is some command of the `Procfile` with that command's desired count;
/// and each command that is not the release one has its target.
pub proof fn lemma_targets_are_long_running_commands(commands: Seq<(ProcessType, String)>, scales: Seq<AppScale>)
    ensures
        ({
            let t = targets_of(commands, scales);
            &&& forall|i: int| 0 <= i < t.len() ==> (#[trigger] t[i]).0 != ProcessType::Release
            &&& forall|i: int| 0 <= i < t.len() ==> exists|j: int| 0 <= j < commands.len()
                && #[trigger] t[i] == (commands[j].0, Some(commands[j].1@), desired_count(scales, commands[j].0))
            &&& forall|j: int| 0 <= j < commands.len() && (#[trigger] commands[j]).0 != ProcessType::Release ==>
                exists|i: int| 0 <= i < t.len()
                    && t[i] == (commands[j].0, Some(commands[j].1@), desired_count(scales, commands[j].0))
            &&& t.len() <= commands.len()
        }),
    decreases commands.len(),
{
    if commands.len() > 0 {
        let prev_c = commands.drop_last();
        lemma_targets_are_long_running_commands(prev_c, scales);
        let prev = targets_of(prev_c, scales);
        let t = targets_of(commands, scales);
        let n = commands.len() - 1;
        assert forall|i: int| 0 <= i < t.len() implies exists|j: int| 0 <= j < commands.len()
            && #[trigger] t[i] == (commands[j].0, Some(commands[j].1@), desired_count(scales, commands[j].0)) by {
            if i < prev.len() {
                let j = choose|j: int| 0 <= j < prev_c.len()
                    && #[trigger] prev[i] == (prev_c[j].0, Some(prev_c[j].1@), desired_count(scales, prev_c[j].0));
                assert(commands[j] == prev_c[j]);
                assert(t[i] == prev[i]);
            } else {
                assert(t[i] == (commands[n].0, Some(commands[n].1@), desired_count(scales, commands[n].0)));
            }
        }
        assert forall|j: int| 0 <= j < commands.len() && (#[trigger] commands[j]).0 != ProcessType::Release implies
            exists|i: int| 0 <= i < t.len()
                && t[i] == (commands[j].0, Some(commands[j].1@), desired_count(scales, commands[j].0)) by {
            if j < n {
                assert(prev_c[j] == commands[j]);
                let i = choose|i: int| 0 <= i < prev.len()
                    && prev[i] == (prev_c[j].0, Some(prev_c[j].1@), desired_count(scales, prev_c[j].0));
                assert(t[i] == prev[i]);
            } else {
                assert(t[prev.len() as int] == (commands[n].0, Some(commands[n].1@), desired_count(scales, commands[n].0)));
            }
        }
    }
}

pub open spec fn target_view(t: ProcessTarget) -> (ProcessType, Option<Seq<char>>, u32) {
    (t.process_type, match t.command {
        Some(c) => Some(c@),
        None => None,
    }, t.count)
}

fn desired_count_exec(scales: &Vec<AppScale>, p: ProcessType) -> (n: u32)
    ensures
        n == desired_count(scales@, p),
{
    let mut i: usize = 0;
    proof {
        assert(scales@.subrange(0, scales@.len() as int) == scales@);
    }
    while i < scales.len()
        invariant
            i <= scales@.len(),
            desired_count(scales@, p) == desired_count(scales@.subrange(i as int, scales@.len() as int), p),
        decreases scales@.len() - i,
    {
        assert(scales@.subrange(i as int, scales@.len() as int).drop_first() == scales@.subrange(i + 1, scales@.len() as int));
        if scales[i].process_type == p {
            return scales[i].desired as u32;
        }
        i = i + 1;
    }
    1
}

/// The replicas a deployment runs: without a `Procfile`, one web replica
/// with the image's own command; with one, each process type but release
/// with its command, as many replicas as its scale setting asks (one when
/// there is none).
pub fn resolve_process_targets(procfile: &Option<Procfile>, scale_configs: &Vec<AppScale>) -> (r: Vec<ProcessTarget>)
    ensures
        r@.map_values(|t: ProcessTarget| target_view(t)) == match procfile {
            Some(pf) => targets_of(pf.commands@, scale_configs@),
            None => seq![(ProcessType::Web, None::<Seq<char>>, 1u32)],
        },
{
    let mut targets: Vec<ProcessTarget> = Vec::new();
    match procfile {
        Some(pf) => {
            let mut k: usize = 0;
            while k < pf.commands.len()
                invariant
                    k <= pf.commands@.len(),
                    targets@.map_values(|t: ProcessTarget| target_view(t)) == targets_of(pf.commands@.take(k as int), scale_configs@),
                decreases pf.commands@.len() - k,
            {
                proof {
                    assert(pf.commands@.take(k + 1).drop_last() == pf.commands@.take(k as int));
                    assert(pf.commands@.take(k + 1).last() == pf.commands@[k as int]);
                }
                let (pt, cmd) = (pf.commands[k].0, &pf.commands[k].1);
                if pt != ProcessType::Release {
                    let count = desired_count_exec(scale_configs, pt);
                    let ghost before = targets@.map_values(|t: ProcessTarget| target_view(t));
                    targets.push(ProcessTarget { process_type: pt, command: Some(cmd.clone()), count });
                    proof {
                        assert(targets@.map_values(|t: ProcessTarget| target_view(t)) == before.push((pt, Some(cmd@), count)));
                    }
                }
                k = k + 1;
            }
            proof {
                assert(pf.commands@.take(pf.commands@.len() as int) == pf.commands@);
            }
        },
        None => {
            targets.push(ProcessTarget { process_type: ProcessType::Web, command: None, count: 1 });
            assert(targets@.map_values(|t: ProcessTarget| target_view(t)) =~= seq![(ProcessType::Web, None::<Seq<char>>, 1u32)]);
        },
    }
    targets
}

/// The replicas of the targets, in order: for each target, its replica
/// numbers from 0.
pub open spec fn replicas_of_targets(targets: Seq<ProcessTarget>) -> Seq<(ProcessType, u32)>
    decreases targets.len(),
{
    if targets.len() == 0 {
        Seq::empty()
    } else {
        let t = targets.last();
        replicas_of_targets(targets.drop_last()) + Seq::new(t.count as nat, |i: int| (t.process_type, i as u32))
    }
}

/// Whether an application keeps state a second copy could corrupt: it
/// declares volumes or has backups on.
pub open spec fn is_stateful_spec(volume_paths_empty: bool, backup: Option<AppBackup>) -> bool {
    !volume_paths_empty || match backup {
        Some(b) => b.enabled,
        None => false,
    }
}

/// Whether an application keeps state, so that its previous deployment must
/// stop before the new one starts.
pub fn is_stateful(volume_paths: &Vec<String>, backup: &Option<AppBackup>) -> (b: bool)
    ensures
        b == is_stateful_spec(volume_paths@.len() == 0, *backup),
{
    volume_paths.len() > 0 || match backup {
        Some(b) => b.enabled,
        None => false,
    }
}

/// One step of a deployment.
#[derive(Clone, Debug, PartialEq, Eq)]
pub enum DeployStep {
    /// Build the image from the commit.
    BuildImage,
    /// Tag an image kept from an earlier deployment instead of building.
    ReuseImage(String),
    /// Run the `Procfile`'s release command in a one-off container.
    RunRelease(String),
    /// Stop the processes of the application's other active deployments.
    StopPrevious,
    /// Create the container of a replica.
    CreateContainer(ProcessType, u32),
    /// Start the container of a replica.
    StartContainer(ProcessType, u32),
    /// Wait until the named web container answers.
    AwaitReady(String),
    /// Record that the pending database restore happened.
    ClearRestorePending,
    /// Mark the deployment running, the others stopped, remove their
    /// containers and prune old images.
    Promote,
}

/// A create step for each replica, in order.
pub open spec fn create_steps(replicas: Seq<(ProcessType, u32)>) -> Seq<StepKind>
    decreases replicas.len(),
{
    if replicas.len() == 0 {
        Seq::empty()
    } else {
        create_steps(replicas.drop_last()).push(StepKind::CreateContainer(replicas.last().0, replicas.last().1))
    }
}

/// A start step for each replica, in order.
pub open spec fn start_steps(replicas: Seq<(ProcessType, u32)>) -> Seq<StepKind>
    decreases replicas.len(),
{
    if replicas.len() == 0 {
        Seq::empty()
    } else {
        start_steps(replicas.drop_last()).push(StepKind::StartContainer(replicas.last().0, replicas.last().1))
    }
}

/// A readiness wait for each web replica, in order, by container name.
pub open spec fn await_steps(app_id: Seq<char>, deployment_id: Seq<char>, replicas: Seq<(ProcessType, u32)>) -> Seq<StepKind>
    decreases replicas.len(),
{
    if replicas.len() == 0 {
        Seq::empty()
    } else {
        let prev = await_steps(app_id, deployment_id, replicas.drop_last());
        let (p, n) = replicas.last();
        if p == ProcessType::Web {
            prev.push(StepKind::AwaitReady(process_container_name_spec(app_id, deployment_id, p, n as nat)))
        } else {
            prev
        }
    }
}

/// The steps of a deployment, in order.
pub open spec fn deployment_steps_spec(
    app_id: Seq<char>,
    deployment_id: Seq<char>,
    source_image: Option<String>,
    release: Option<Seq<char>>,
    stop_previous: bool,
    replicas: Seq<(ProcessType, u32)>,
    clear_restore: bool,
) -> Seq<StepKind> {
    let first = match source_image {
        Some(s) => seq![StepKind::ReuseImage(s@)],
        None => seq![StepKind::BuildImage],
    };
    let rel = match release {
        Some(c) => seq![StepKind::RunRelease(c)],
        None => Seq::empty(),
    };
    let stop = if stop_previous { seq![StepKind::StopPrevious] } else { Seq::empty() };
    let clear = if clear_restore { seq![StepKind::ClearRestorePending] } else { Seq::empty() };
    first + rel + stop + create_steps(replicas) + start_steps(replicas) + await_steps(app_id, deployment_id, replicas) + clear
        + seq![StepKind::Promote]
}

/// The mathematical form of a [`DeployStep`].
pub enum StepKind {
    BuildImage,
    ReuseImage(Seq<char>),
    RunRelease(Seq<char>),
    StopPrevious,
    CreateContainer(ProcessType, u32),
    StartContainer(ProcessType, u32),
    AwaitReady(Seq<char>),
    ClearRestorePending,
    Promote,
}

/// The steps, in mathematical form.
pub open spec fn kinds(steps: Seq<DeployStep>) -> Seq<StepKind>
    decreases steps.len(),
{
    if steps.len() == 0 {
        Seq::empty()
    } else {
        kinds(steps.drop_last()).push(step_kind(steps.last()))
    }
}

proof fn lemma_kinds_push(steps: Seq<DeployStep>, x: DeployStep)
    ensures
        kinds(steps.push(x)) == kinds(steps).push(step_kind(x)),
{
    assert(steps.push(x).drop_last() == steps);
}

pub open spec fn step_kind(s: DeployStep) -> StepKind {
    match s {
        DeployStep::BuildImage => StepKind::BuildImage,
        DeployStep::ReuseImage(i) => StepKind::ReuseImage(i@),
        DeployStep::RunRelease(c) => StepKind::RunRelease(c@),
        DeployStep::StopPrevious => StepKind::StopPrevious,
        DeployStep::CreateContainer(p, i) => StepKind::CreateContainer(p, i),
        DeployStep::StartContainer(p, i) => StepKind::StartContainer(p, i),
        DeployStep::AwaitReady(n) => StepKind::AwaitReady(n@),
        DeployStep::ClearRestorePending => StepKind::ClearRestorePending,
        DeployStep::Promote => StepKind::Promote,
    }
}

fn replicas_exec(targets: &Vec<ProcessTarget>) -> (r: Vec<(ProcessType, u32)>)
    ensures
        r@ == replicas_of_targets(targets@),
{
    let mut r: Vec<(ProcessType, u32)> = Vec::new();
    let mut k: usize = 0;
    while k < targets.len()
        invariant
            k <= targets@.len(),
            r@ == replicas_of_targets(targets@.take(k as int)),
        decreases targets@.len() - k,
    {
        proof {
            assert(targets@.take(k + 1).drop_last() == targets@.take(k as int));
            assert(targets@.take(k + 1).last() == targets@[k as int]);
        }
        let t = &targets[k];
        let ghost start = r@;
        let mut i: u32 = 0;
        while i < t.count
            invariant
                i <= t.count,
                r@ == start + Seq::new(i as nat, |j: int| (t.process_type, j as u32)),
            decreases t.count - i,
        {
            r.push((t.process_type, i));
            proof {
                assert(Seq::new((i + 1) as nat, |j: int| (t.process_type, j as u32)) == Seq::new(i as nat, |j: int| (t.process_type, j as u32)).push((t.process_type, i)));
            }
            i = i + 1;
        }
        k = k + 1;
    }
    proof {
        assert(targets@.take(targets@.len() as int) == targets@);
    }
    r
}

/// The steps of deploying `deployment` of the application `app_id`, in
/// order: reuse `source_image` or build; run the release command of the
/// `Procfile` if it has one; when the application keeps state and another
/// deployment is active, stop that one first; create, then start, every
/// replica of the targets; wait for each web replica to answer; record a
/// pending database restore as done (only once the replicas are ready); and
/// finally promote the deployment.
pub fn deployment_steps(
    app_id: &str,
    deployment_id: &str,
    source_image: &Option<String>,
    procfile: &Option<Procfile>,
    stateful: bool,
    has_previous: bool,
    backup: &Option<AppBackup>,
    targets: &Vec<ProcessTarget>,
) -> (r: Vec<DeployStep>)
    ensures
        kinds(r@) == deployment_steps_spec(
            app_id@,
            deployment_id@,
            *source_image,
            match procfile {
                Some(pf) => command_of(pf.commands@, ProcessType::Release),
                None => None,
            },
            stateful && has_previous,
            replicas_of_targets(targets@),
            match backup {
                Some(b) => b.enabled && b.restore_pending,
                None => false,
            },
        ),
{
    let mut r: Vec<DeployStep> = Vec::new();
    match source_image {
        Some(s) => r.push(DeployStep::ReuseImage(s.clone())),
        None => r.push(DeployStep::BuildImage),
    }
    proof {
        assert(r@ == Seq::<DeployStep>::empty().push(r@[0]));
        lemma_kinds_push(Seq::<DeployStep>::empty(), r@[0]);
        assert(kinds(Seq::<DeployStep>::empty()) == Seq::<StepKind>::empty());
    }
    let ghost first = match source_image {
        Some(si) => seq![StepKind::ReuseImage(si@)],
        None => seq![StepKind::BuildImage],
    };
    assert(kinds(r@) =~= first);
    match procfile {
        Some(pf) => match pf.get(&ProcessType::Release) {
            Some(cmd) => {
                let ghost before = r@;
                r.push(DeployStep::RunRelease(lit(cmd)));
                proof {
                    assert(r@.drop_last() == before);
                }
            },
            None => {},
        },
        None => {},
    }
    proof {
        let rel = match procfile {
            Some(pf) => match command_of(pf.commands@, ProcessType::Release) {
                Some(c) => seq![StepKind::RunRelease(c)],
                None => Seq::<StepKind>::empty(),
            },
            None => Seq::<StepKind>::empty(),
        };
        assert(kinds(r@) =~= first + rel);
    }
    if stateful && has_previous {
        let ghost before = r@;
        r.push(DeployStep::StopPrevious);
        proof {
            assert(r@.drop_last() == before);
        }
    }
    let ghost k1 = kinds(r@);
    let ghost rel = match procfile {
        Some(pf) => match command_of(pf.commands@, ProcessType::Release) {
            Some(c) => seq![StepKind::RunRelease(c)],
            None => Seq::<StepKind>::empty(),
        },
        None => Seq::<StepKind>::empty(),
    };
    let ghost stop = if stateful && has_previous { seq![StepKind::StopPrevious] } else { Seq::<StepKind>::empty() };
    assert(k1 =~= first + rel + stop);
    let replicas = replicas_exec(targets);
    let mut i: usize = 0;
    while i < replicas.len()
        invariant
            i <= replicas@.len(),
            kinds(r@) == k1 + create_steps(replicas@.take(i as int)),
        decreases replicas@.len() - i,
    {
        let (p, n) = replicas[i];
        let ghost before = r@;
        r.push(DeployStep::CreateContainer(p, n));
        proof {
            assert(replicas@.take(i + 1).drop_last() == replicas@.take(i as int));
            assert(r@.drop_last() == before);
        }
        i = i + 1;
    }
    proof {
        assert(replicas@.take(replicas@.len() as int) == replicas@);
    }
    let ghost k2 = kinds(r@);
    let mut i: usize = 0;
    while i < replicas.len()
        invariant
            i <= replicas@.len(),
            kinds(r@) == k2 + start_steps(replicas@.take(i as int)),
        decreases replicas@.len() - i,
    {
        let (p, n) = replicas[i];
        let ghost before = r@;
        r.push(DeployStep::StartContainer(p, n));
        proof {
            assert(replicas@.take(i + 1).drop_last() == replicas@.take(i as int));
            assert(r@.drop_last() == before);
        }
        i = i + 1;
    }
    proof {
        assert(replicas@.take(replicas@.len() as int) == replicas@);
    }
    let ghost k3 = kinds(r@);
    let mut i: usize = 0;
    while i < replicas.len()
        invariant
            i <= replicas@.len(),
            kinds(r@) == k3 + await_steps(app_id@, deployment_id@, replicas@.take(i as int)),
        decreases replicas@.len() - i,
    {
        let (p, n) = replicas[i];
        proof {
            assert(replicas@.take(i + 1).drop_last() == replicas@.take(i as int));
            assert(replicas@.take(i + 1).last() == (p, n));
        }
        if p == ProcessType::Web {
            let name = process_container_name(app_id, deployment_id, &p, n);
            let ghost before = r@;
            r.push(DeployStep::AwaitReady(name));
            proof {
                assert(r@.drop_last() == before);
            }
        }
        i = i + 1;
    }
    proof {
        assert(replicas@.take(replicas@.len() as int) == replicas@);
    }
    let ghost k4 = kinds(r@);
    let clear = match backup {
        Some(b) => b.enabled && b.restore_pending,
        None => false,
    };
    if clear {
        let ghost before = r@;
        r.push(DeployStep::ClearRestorePending);
        proof {
            lemma_kinds_push(before, DeployStep::ClearRestorePending);
        }
    }
    let ghost before = r@;
    r.push(DeployStep::Promote);
    proof {
        lemma_kinds_push(before, DeployStep::Promote);
        assert(replicas@.take(replicas@.len() as int) == replicas@);
        assert(kinds(r@) =~= deployment_steps_spec(
            app_id@,
            deployment_id@,
            *source_image,
            match procfile {
                Some(pf) => command_of(pf.commands@, ProcessType::Release),
                None => None,
            },
            stateful && has_previous,
            replicas_of_targets(targets@),
            clear,
        ));
    }
    r
}

/// The ids of the deployments other than `current_id`, in order.
pub open spec fn other_ids(ds: Seq<Deployment>, current_id: Seq<char>) -> Seq<Seq<char>>
    decreases ds.len(),
{
    if ds.len() == 0 {
        Seq::empty()
    } else {
        let prev = other_ids(ds.drop_last(), current_id);
        if ds.last().id@ == current_id {
            prev
        } else {
            prev.push(ds.last().id@)
        }
    }
}

pub open spec fn ids_of(ds: Seq<Deployment>) -> Seq<Seq<char>> {
    ds.map_values(|d: Deployment| d.id@)
}

/// The other active deployments of the application: all but `current_id`,
/// in order.
pub fn previous_deployments(active: &Vec<Deployment>, current_id: &str) -> (r: Vec<Deployment>)
    ensures
        ids_of(r@) == other_ids(active@, current_id@),
{
    let cur = chars_of(current_id);
    let mut r: Vec<Deployment> = Vec::new();
    let mut i: usize = 0;
    while i < active.len()
        invariant
            i <= active@.len(),
            cur@ == current_id@,
            ids_of(r@) == other_ids(active@.take(i as int), current_id@),
        decreases active@.len() - i,
    {
        proof {
            assert(active@.take(i + 1).drop_last() == active@.take(i as int));
            assert(active@.take(i + 1).last() == active@[i as int]);
        }
        let id = chars_of(active[i].id.as_str());
        if !chars_eq(id.as_slice(), cur.as_slice()) {
            let ghost before = ids_of(r@);
            let d = Deployment {
                id: active[i].id.clone(),
                commit_sha: active[i].commit_sha.clone(),
                status: active[i].status,
            };
            r.push(d);
            proof {
                assert(ids_of(r@) =~= before.push(d.id@));
            }
        }
        i = i + 1;
    }
    proof {
        assert(active@.take(active@.len() as int) == active@);
    }
    r
}

/// Why a web replica holds the deployment back: nothing when it became
/// ready; the probe's reason when it answered not ready; that it could not
/// be reached otherwise.
pub fn readiness_failure(outcome: &ReadinessOutcome, container_name: &str) -> (r: Option<String>)
    ensures
        match outcome {
            ReadinessOutcome::Ready { .. } => r is None,
            ReadinessOutcome::NotReady { reason } => r matches Some(m) && m@ == reason@,
            ReadinessOutcome::Unreachable => r matches Some(m) && m@ == "Container "@ + container_name@ + " is unreachable on the network"@,
        },
{
    match outcome {
        ReadinessOutcome::Ready { .. } => None,
        ReadinessOutcome::NotReady { reason } => Some(reason.clone()),
        ReadinessOutcome::Unreachable => {
            let mut m = lit("Container ");
            m.append(container_name);
            m.append(" is unreachable on the network");
            Some(m)
        },
    }
}

/// The line logged before the readiness probe starts.
pub fn readiness_wait_message(path: &str, timeout_secs: u64) -> (m: String)
    ensures
        m@ == "Waiting for web process to respond on GET "@ + path@ + " (timeout: "@ + decimal(timeout_secs as nat) + "s)"@,
{
    let mut m = lit("Waiting for web process to respond on GET ");
    m.append(path);
    m.append(" (timeout: ");
    m.append(decimal_string(timeout_secs).as_str());
    m.append("s)");
    m
}

/// What undoes a step of a deployment.
#[derive(Clone, Debug)]
pub enum DeployCompensation {
    /// Remove the deployment's image.
    RemoveImage(String),
    /// Remove a container the step created.
    RemoveContainer(String),
    /// Start the first web replica of each of the given deployments again.
    RestartPrevious(Vec<String>),
}

/// A compensation with its names as plain text.
pub enum DeployCompensationView {
    RemoveImage(Seq<char>),
    RemoveContainer(Seq<char>),
    RestartPrevious(Seq<Seq<char>>),
}

impl View for DeployCompensation {
    type V = DeployCompensationView;

    open spec fn view(&self) -> DeployCompensationView {
        match self {
            DeployCompensation::RemoveImage(t) => DeployCompensationView::RemoveImage(t@),
            DeployCompensation::RemoveContainer(n) => DeployCompensationView::RemoveContainer(n@),
            DeployCompensation::RestartPrevious(ids) => DeployCompensationView::RestartPrevious(crate::text::views(ids@)),
        }
    }
}

/// The compensation of a deployment step: the image of a build or reuse is
/// removed, as is a created replica's container and (when
/// `release_cleanup`) the release container; stopped previous deployments
/// get their first web replica back; the other steps are not undone.
pub open spec fn compensation_spec(
    step: StepKind,
    app_slug: Seq<char>,
    app_id: Seq<char>,
    deployment_id: Seq<char>,
    previous_ids: Seq<Seq<char>>,
    release_cleanup: bool,
) -> Option<DeployCompensationView> {
    match step {
        StepKind::BuildImage | StepKind::ReuseImage(_) => Some(
            DeployCompensationView::RemoveImage(crate::docker::app::image::image_tag_spec(app_slug, deployment_id)),
        ),
        StepKind::RunRelease(_) => if release_cleanup {
            Some(DeployCompensationView::RemoveContainer(process_container_name_spec(app_id, deployment_id, ProcessType::Release, 0)))
        } else {
            None
        },
        StepKind::StopPrevious => Some(DeployCompensationView::RestartPrevious(previous_ids)),
        StepKind::CreateContainer(p, i) => Some(
            DeployCompensationView::RemoveContainer(process_container_name_spec(app_id, deployment_id, p, i as nat)),
        ),
        _ => None,
    }
}

/// What undoes `step` of deploying `deployment_id` of the application
/// (`app_slug`, `app_id`) when a later step fails.
pub fn step_compensation(
    step: &DeployStep,
    app_slug: &str,
    app_id: &str,
    deployment_id: &str,
    previous_ids: &Vec<String>,
    release_cleanup: bool,
) -> (c: Option<DeployCompensation>)
    ensures
        match c {
            Some(c) => compensation_spec(step_kind(*step), app_slug@, app_id@, deployment_id@, crate::text::views(previous_ids@), release_cleanup) == Some(c@),
            None => compensation_spec(step_kind(*step), app_slug@, app_id@, deployment_id@, crate::text::views(previous_ids@), release_cleanup) is None,
        },
{
    match step {
        DeployStep::BuildImage | DeployStep::ReuseImage(_) => Some(
            DeployCompensation::RemoveImage(crate::docker::app::image::image_tag(app_slug, deployment_id)),
        ),
        DeployStep::RunRelease(_) => if release_cleanup {
            Some(DeployCompensation::RemoveContainer(process_container_name(app_id, deployment_id, &ProcessType::Release, 0)))
        } else {
            None
        },
        DeployStep::StopPrevious => Some(DeployCompensation::RestartPrevious(crate::text::clone_strings(previous_ids))),
        DeployStep::CreateContainer(p, i) => Some(
            DeployCompensation::RemoveContainer(process_container_name(app_id, deployment_id, p, *i)),
        ),
        _ => None,
    }
}

proof fn lemma_create_steps_kind(replicas: Seq<(ProcessType, u32)>)
    ensures
        create_steps(replicas).len() == replicas.len(),
        forall|i: int| 0 <= i < create_steps(replicas).len() ==> (#[trigger] create_steps(replicas)[i]) is CreateContainer,
    decreases replicas.len(),
{
    if replicas.len() > 0 {
        lemma_create_steps_kind(replicas.drop_last());
    }
}

proof fn lemma_start_steps_kind(replicas: Seq<(ProcessType, u32)>)
    ensures
        forall|i: int| 0 <= i < start_steps(replicas).len() ==> (#[trigger] start_steps(replicas)[i]) is StartContainer,
    decreases replicas.len(),
{
    if replicas.len() > 0 {
        lemma_start_steps_kind(replicas.drop_last());
    }
}

proof fn lemma_await_steps_kind(app_id: Seq<char>, deployment_id: Seq<char>, replicas: Seq<(ProcessType, u32)>)
    ensures
        forall|i: int| 0 <= i < await_steps(app_id, deployment_id, replicas).len()
            ==> (#[trigger] await_steps(app_id, deployment_id, replicas)[i]) is AwaitReady,
    decreases replicas.len(),
{
    if replicas.len() > 0 {
        lemma_await_steps_kind(app_id, deployment_id, replicas.drop_last());
    }
}

/// The previous release keeps serving until the new one is promoted: the
/// last step is the promotion and no other step promotes; an application
/// without state never stops the previous deployment before that; one with
/// state stops it before creating any replica. Every readiness wait thus
/// comes before the promotion.
pub proof fn lemma_previous_serves_until_promoted(
    app_id: Seq<char>,
    deployment_id: Seq<char>,
    source_image: Option<String>,
    release: Option<Seq<char>>,
    stop_previous: bool,
    replicas: Seq<(ProcessType, u32)>,
    clear_restore: bool,
)
    ensures
        ({
            let steps = deployment_steps_spec(app_id, deployment_id, source_image, release, stop_previous, replicas, clear_restore);
            &&& steps.len() > 0
            &&& steps.last() == StepKind::Promote
            &&& forall|i: int| 0 <= i < steps.len() - 1 ==> !(#[trigger] steps[i] is Promote)
            &&& !stop_previous ==> forall|i: int| 0 <= i < steps.len() ==> !(#[trigger] steps[i] is StopPrevious)
            &&& stop_previous ==> exists|k: int| 0 <= k < steps.len() && steps[k] is StopPrevious
                && forall|i: int| 0 <= i < steps.len() && (#[trigger] steps[i]) is CreateContainer ==> k < i
        }),
{
    lemma_create_steps_kind(replicas);
    lemma_start_steps_kind(replicas);
    lemma_await_steps_kind(app_id, deployment_id, replicas);
    let first = match source_image {
        Some(s) => seq![StepKind::ReuseImage(s@)],
        None => seq![StepKind::BuildImage],
    };
    let rel = match release {
        Some(c) => seq![StepKind::RunRelease(c)],
        None => Seq::<StepKind>::empty(),
    };
    let stop = if stop_previous { seq![StepKind::StopPrevious] } else { Seq::<StepKind>::empty() };
    let clear = if clear_restore { seq![StepKind::ClearRestorePending] } else { Seq::<StepKind>::empty() };
    let c = create_steps(replicas);
    let st = start_steps(replicas);
    let aw = await_steps(app_id, deployment_id, replicas);
    let head = first + rel + stop;
    let body = c + st + aw + clear;
    let steps = deployment_steps_spec(app_id, deployment_id, source_image, release, stop_previous, replicas, clear_restore);
    assert(steps =~= head + body + seq![StepKind::Promote]);
    assert forall|i: int| 0 <= i < head.len() implies !(#[trigger] head[i] is Promote) && !(head[i] is CreateContainer)
        && (!stop_previous ==> !(head[i] is StopPrevious)) by {
    }
    assert forall|i: int| 0 <= i < body.len() implies !(#[trigger] body[i] is Promote) && !(body[i] is StopPrevious) by {
        if i < c.len() {
            assert(body[i] == c[i]);
        } else if i < c.len() + st.len() {
            assert(body[i] == st[i - c.len()]);
        } else if i < c.len() + st.len() + aw.len() {
            assert(body[i] == aw[i - c.len() - st.len()]);
        } else {
            assert(body[i] == clear[i - c.len() - st.len() - aw.len()]);
        }
    }
    assert forall|i: int| 0 <= i < steps.len() - 1 implies !(#[trigger] steps[i] is Promote) by {
        if i < head.len() {
            assert(steps[i] == head[i]);
        } else {
            assert(steps[i] == body[i - head.len()]);
        }
    }
    if !stop_previous {
        assert forall|i: int| 0 <= i < steps.len() implies !(#[trigger] steps[i] is StopPrevious) by {
            if i < head.len() {
                assert(steps[i] == head[i]);
            } else if i < head.len() + body.len() {
                assert(steps[i] == body[i - head.len()]);
            }
        }
    } else {
        let k = (first.len() + rel.len()) as int;
        assert(steps[k] == head[k]);
        assert(head[k] == stop[0]);
        assert forall|i: int| 0 <= i < steps.len() && (#[trigger] steps[i]) is CreateContainer implies k < i by {
            if i < head.len() {
                assert(steps[i] == head[i]);
            }
        }
    }
}

} // verus!
