//! Moving an application to another node: the steps of the move, each with
//! the step that undoes it, in the order they run.
use crate::docker::naming::{app_volume_prefix, app_volume_prefix_spec, service_volume_name};
use crate::text::{chars_of, clone_strings, starts_with, starts_with_at, views};
use vstd::prelude::*;

verus! {

/// One step of a move.
#[derive(Clone, Debug)]
pub enum MoveAction {
    /// Stop the given deployments on the source node.
    StopDeployments(Vec<String>),
    /// Stop the containers of the given database services on the source node.
    StopServices(Vec<String>),
    /// Copy an application volume to the target node.
    MigrateAppVolume(String),
    /// Copy a database service volume to the target node.
    MigrateServiceVolume(String),
    /// Record the application on the given node.
    UpdateNode(String),
    /// Create the application's network on the target node.
    CreateNetwork(String),
    /// Provision one database service on the target node.
    ProvisionService(String),
    /// Provision the given database services on the target node, together.
    ProvisionServices(Vec<String>),
    /// Start a new deployment of the application on the target node.
    TriggerDeployment,
    /// Deploy the given deployment again on the target node.
    RedeployOnTarget(String),
}

/// What undoes a step of a move.
#[derive(Clone, Debug)]
pub enum MoveCompensation {
    /// Restart the given deployments on the source node.
    RestartDeployments(Vec<String>),
    /// Start the containers of the given database services again.
    StartServices(Vec<String>),
    /// Remove a volume copied to the target node.
    RemoveVolume(String),
    /// Record the application on the given node again.
    RestoreNode(String),
    /// Remove the application's network from the target node.
    RemoveNetwork(String),
}

/// A step as plain text values.
pub enum MoveActionView {
    StopDeployments(Seq<Seq<char>>),
    StopServices(Seq<Seq<char>>),
    MigrateAppVolume(Seq<char>),
    MigrateServiceVolume(Seq<char>),
    UpdateNode(Seq<char>),
    CreateNetwork(Seq<char>),
    ProvisionService(Seq<char>),
    ProvisionServices(Seq<Seq<char>>),
    TriggerDeployment,
    RedeployOnTarget(Seq<char>),
}

/// A compensation as plain text values.
pub enum MoveCompensationView {
    RestartDeployments(Seq<Seq<char>>),
    StartServices(Seq<Seq<char>>),
    RemoveVolume(Seq<char>),
    RestoreNode(Seq<char>),
    RemoveNetwork(Seq<char>),
}

impl View for MoveAction {
    type V = MoveActionView;

    open spec fn view(&self) -> MoveActionView {
        match self {
            MoveAction::StopDeployments(v) => MoveActionView::StopDeployments(views(v@)),
            MoveAction::StopServices(v) => MoveActionView::StopServices(views(v@)),
            MoveAction::MigrateAppVolume(s) => MoveActionView::MigrateAppVolume(s@),
            MoveAction::MigrateServiceVolume(s) => MoveActionView::MigrateServiceVolume(s@),
            MoveAction::UpdateNode(s) => MoveActionView::UpdateNode(s@),
            MoveAction::CreateNetwork(s) => MoveActionView::CreateNetwork(s@),
            MoveAction::ProvisionService(s) => MoveActionView::ProvisionService(s@),
            MoveAction::ProvisionServices(v) => MoveActionView::ProvisionServices(views(v@)),
            MoveAction::TriggerDeployment => MoveActionView::TriggerDeployment,
            MoveAction::RedeployOnTarget(s) => MoveActionView::RedeployOnTarget(s@),
        }
    }
}

impl View for MoveCompensation {
    type V = MoveCompensationView;

    open spec fn view(&self) -> MoveCompensationView {
        match self {
            MoveCompensation::RestartDeployments(v) => MoveCompensationView::RestartDeployments(views(v@)),
            MoveCompensation::StartServices(v) => MoveCompensationView::StartServices(views(v@)),
            MoveCompensation::RemoveVolume(s) => MoveCompensationView::RemoveVolume(s@),
            MoveCompensation::RestoreNode(s) => MoveCompensationView::RestoreNode(s@),
            MoveCompensation::RemoveNetwork(s) => MoveCompensationView::RemoveNetwork(s@),
        }
    }
}

/// A step of a plan with its optional compensation.
pub type MoveStep = (MoveAction, Option<MoveCompensation>);

/// A step as plain text values.
pub open spec fn step_view(s: MoveStep) -> (MoveActionView, Option<MoveCompensationView>) {
    (s.0@, match s.1 {
        Some(c) => Some(c@),
        None => None,
    })
}

/// The steps of a plan as plain text values.
pub open spec fn step_views(s: Seq<MoveStep>) -> Seq<(MoveActionView, Option<MoveCompensationView>)> {
    s.map_values(|x: MoveStep| step_view(x))
}

/// The names among `names` that start with `prefix`, in order.
pub open spec fn with_prefix(names: Seq<Seq<char>>, prefix: Seq<char>) -> Seq<Seq<char>>
    decreases names.len(),
{
    if names.len() == 0 {
        Seq::empty()
    } else if starts_with(names.last(), prefix) {
        with_prefix(names.drop_last(), prefix).push(names.last())
    } else {
        with_prefix(names.drop_last(), prefix)
    }
}

/// The volumes of the given database services.
pub open spec fn service_volumes(service_ids: Seq<Seq<char>>) -> Seq<Seq<char>> {
    service_ids.map_values(|id: Seq<char>| "slasha-svc-vol-"@ + id)
}

/// One copy step per volume, each undone by removing the copy.
pub open spec fn volume_steps(volumes: Seq<Seq<char>>, service: bool) -> Seq<(MoveActionView, Option<MoveCompensationView>)> {
    volumes.map_values(|v: Seq<char>| (
        if service {
            MoveActionView::MigrateServiceVolume(v)
        } else {
            MoveActionView::MigrateAppVolume(v)
        },
        Some(MoveCompensationView::RemoveVolume(v)),
    ))
}

/// The steps that stop the active deployments, undone by restarting them;
/// none when nothing is running.
pub open spec fn stop_steps(deployments: Seq<Seq<char>>) -> Seq<(MoveActionView, Option<MoveCompensationView>)> {
    if deployments.len() > 0 {
        seq![(MoveActionView::StopDeployments(deployments), Some(MoveCompensationView::RestartDeployments(deployments)))]
    } else {
        Seq::empty()
    }
}

/// Re-pointing the application at the target node and creating its network
/// there, each undone.
pub open spec fn switch_steps(
    app_id: Seq<char>,
    source_node: Seq<char>,
    target_node: Seq<char>,
) -> Seq<(MoveActionView, Option<MoveCompensationView>)> {
    seq![
        (MoveActionView::UpdateNode(target_node), Some(MoveCompensationView::RestoreNode(source_node))),
        (MoveActionView::CreateNetwork(app_id), Some(MoveCompensationView::RemoveNetwork(app_id))),
    ]
}

/// The plan of a move: stop what runs (undone by restarting it), copy the
/// application's volumes (those listed under its prefix) and its services'
/// volumes (each undone by removing the copy), point the application at
/// the target node (undone by pointing it back), create its network there
/// (undone by removing it), provision each service there, and start a new
/// deployment when something was running.
pub open spec fn move_app_to_node_plan(
    deployments: Seq<Seq<char>>,
    listed_volumes: Seq<Seq<char>>,
    service_ids: Seq<Seq<char>>,
    app_id: Seq<char>,
    source_node: Seq<char>,
    target_node: Seq<char>,
) -> Seq<(MoveActionView, Option<MoveCompensationView>)> {
    stop_steps(deployments) + volume_steps(with_prefix(listed_volumes, app_volume_prefix_spec(app_id)), false)
        + volume_steps(service_volumes(service_ids), true) + switch_steps(app_id, source_node, target_node)
        + service_ids.map_values(|id: Seq<char>| (MoveActionView::ProvisionService(id), None::<MoveCompensationView>))
        + if deployments.len() > 0 {
        seq![(MoveActionView::TriggerDeployment, None::<MoveCompensationView>)]
    } else {
        Seq::empty()
    }
}

pub(crate) proof fn lemma_step_views_push(s: Seq<MoveStep>, x: MoveStep)
    ensures
        step_views(s.push(x)) == step_views(s).push(step_view(x)),
{
    assert(step_views(s.push(x)) =~= step_views(s).push(step_view(x)));
}

pub(crate) proof fn lemma_views_push(s: Seq<String>, x: String)
    ensures
        views(s.push(x)) == views(s).push(x@),
{
    assert(views(s.push(x)) =~= views(s).push(x@));
}

/// The names among `names` that start with `prefix`.
pub fn names_with_prefix(names: &Vec<String>, prefix: &str) -> (r: Vec<String>)
    ensures
        views(r@) == with_prefix(views(names@), prefix@),
{
    let p = chars_of(prefix);
    let mut r: Vec<String> = Vec::new();
    let mut i: usize = 0;
    while i < names.len()
        invariant
            i <= names@.len(),
            p@ == prefix@,
            views(r@) == with_prefix(views(names@.take(i as int)), prefix@),
        decreases names@.len() - i,
    {
        let n = chars_of(names[i].as_str());
        let keep = starts_with_at(n.as_slice(), 0, p.as_slice());
        proof {
            assert(n@.subrange(0, n@.len() as int) =~= n@);
            assert(views(names@.take(i + 1)).drop_last() =~= views(names@.take(i as int)));
            assert(views(names@.take(i + 1)).last() == names@[i as int]@);
        }
        if keep {
            let ghost before = r@;
            r.push(names[i].clone());
            proof {
                lemma_views_push(before, names@[i as int]);
            }
        }
        i = i + 1;
    }
    assert(names@.take(names@.len() as int) =~= names@);
    r
}

/// The volumes of the given database services.
pub fn service_volume_names(service_ids: &Vec<String>) -> (r: Vec<String>)
    ensures
        views(r@) == service_volumes(views(service_ids@)),
{
    let mut r: Vec<String> = Vec::new();
    let mut i: usize = 0;
    while i < service_ids.len()
        invariant
            i <= service_ids@.len(),
            views(r@) == service_volumes(views(service_ids@.take(i as int))),
        decreases service_ids@.len() - i,
    {
        let ghost before = r@;
        let name = service_volume_name(service_ids[i].as_str());
        r.push(name);
        proof {
            lemma_views_push(before, name);
            assert(service_volumes(views(service_ids@.take(i + 1))) =~= service_volumes(
                views(service_ids@.take(i as int)),
            ).push("slasha-svc-vol-"@ + service_ids@[i as int]@));
        }
        i = i + 1;
    }
    assert(service_ids@.take(service_ids@.len() as int) =~= service_ids@);
    r
}

/// Appends one copy step per volume, each undone by removing the copy.
pub fn push_volume_steps(steps: &mut Vec<MoveStep>, volumes: &Vec<String>, service: bool)
    ensures
        step_views(final(steps)@) == step_views(old(steps)@) + volume_steps(views(volumes@), service),
{
    let ghost start = step_views(steps@);
    let mut i: usize = 0;
    while i < volumes.len()
        invariant
            i <= volumes@.len(),
            step_views(steps@) == start + volume_steps(views(volumes@.take(i as int)), service),
        decreases volumes@.len() - i,
    {
        let v = &volumes[i];
        let action = if service {
            MoveAction::MigrateServiceVolume(v.clone())
        } else {
            MoveAction::MigrateAppVolume(v.clone())
        };
        let step: MoveStep = (action, Some(MoveCompensation::RemoveVolume(v.clone())));
        let ghost before = steps@;
        steps.push(step);
        proof {
            lemma_step_views_push(before, step);
            assert(volume_steps(views(volumes@.take(i + 1)), service) =~= volume_steps(
                views(volumes@.take(i as int)),
                service,
            ).push(step_view(step)));
        }
        i = i + 1;
    }
    assert(volumes@.take(volumes@.len() as int) =~= volumes@);
}

/// Appends the step that stops the active deployments (undone by restarting
/// them), when there are any.
pub fn push_stop_steps(steps: &mut Vec<MoveStep>, deployments: &Vec<String>)
    ensures
        step_views(final(steps)@) == step_views(old(steps)@) + stop_steps(views(deployments@)),
{
    let ghost before = steps@;
    if deployments.len() > 0 {
        let step: MoveStep = (
            MoveAction::StopDeployments(clone_strings(deployments)),
            Some(MoveCompensation::RestartDeployments(clone_strings(deployments))),
        );
        steps.push(step);
        proof {
            lemma_step_views_push(before, step);
        }
    } else {
        assert(step_views(before) + stop_steps(views(deployments@)) =~= step_views(before));
    }
}

/// Appends the steps that point the application at the target node and
/// create its network there.
pub fn push_switch_steps(steps: &mut Vec<MoveStep>, app_id: &String, source_node: &String, target_node: &String)
    ensures
        step_views(final(steps)@) == step_views(old(steps)@) + switch_steps(app_id@, source_node@, target_node@),
{
    let ghost s0 = steps@;
    let a: MoveStep = (MoveAction::UpdateNode(target_node.clone()), Some(MoveCompensation::RestoreNode(source_node.clone())));
    steps.push(a);
    let ghost s1 = steps@;
    let b: MoveStep = (MoveAction::CreateNetwork(app_id.clone()), Some(MoveCompensation::RemoveNetwork(app_id.clone())));
    steps.push(b);
    proof {
        lemma_step_views_push(s0, a);
        lemma_step_views_push(s1, b);
        assert(step_views(steps@) =~= step_views(s0) + switch_steps(app_id@, source_node@, target_node@));
    }
}

/// The plan of moving an application to another node (see
/// `move_app_to_node_plan`), from the active deployments, the volumes listed
/// on the source node, the application's services and the two nodes.
pub fn move_app_to_node_steps(
    deployments: &Vec<String>,
    listed_volumes: &Vec<String>,
    service_ids: &Vec<String>,
    app_id: &String,
    source_node: &String,
    target_node: &String,
) -> (steps: Vec<MoveStep>)
    ensures
        step_views(steps@) == move_app_to_node_plan(
            views(deployments@),
            views(listed_volumes@),
            views(service_ids@),
            app_id@,
            source_node@,
            target_node@,
        ),
{
    let mut steps: Vec<MoveStep> = Vec::new();
    assert(step_views(steps@) =~= Seq::empty());
    push_stop_steps(&mut steps, deployments);
    let prefix = app_volume_prefix(app_id.as_str());
    let volumes = names_with_prefix(listed_volumes, prefix.as_str());
    push_volume_steps(&mut steps, &volumes, false);
    let service_vols = service_volume_names(service_ids);
    push_volume_steps(&mut steps, &service_vols, true);
    push_switch_steps(&mut steps, app_id, source_node, target_node);
    let ghost mid = step_views(steps@);
    let mut i: usize = 0;
    while i < service_ids.len()
        invariant
            i <= service_ids@.len(),
            step_views(steps@) == mid + views(service_ids@.take(i as int)).map_values(
                |id: Seq<char>| (MoveActionView::ProvisionService(id), None::<MoveCompensationView>),
            ),
        decreases service_ids@.len() - i,
    {
        let step: MoveStep = (MoveAction::ProvisionService(service_ids[i].clone()), None);
        let ghost before = steps@;
        steps.push(step);
        proof {
            lemma_step_views_push(before, step);
            assert(views(service_ids@.take(i + 1)).map_values(
                |id: Seq<char>| (MoveActionView::ProvisionService(id), None::<MoveCompensationView>),
            ) =~= views(service_ids@.take(i as int)).map_values(
                |id: Seq<char>| (MoveActionView::ProvisionService(id), None::<MoveCompensationView>),
            ).push(step_view(step)));
        }
        i = i + 1;
    }
    assert(service_ids@.take(service_ids@.len() as int) =~= service_ids@);
    let ghost before = steps@;
    if deployments.len() > 0 {
        let step: MoveStep = (MoveAction::TriggerDeployment, None);
        steps.push(step);
        proof {
            lemma_step_views_push(before, step);
        }
    }
    assert(step_views(steps@) =~= move_app_to_node_plan(
        views(deployments@),
        views(listed_volumes@),
        views(service_ids@),
        app_id@,
        source_node@,
        target_node@,
    ));
    steps
}

} // verus!
