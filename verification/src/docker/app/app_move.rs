//! The workflow that moves an application to another node, step by step,
//! each step named and paired with what undoes it.
use crate::docker::app_move::{lemma_step_views_push, lemma_views_push, names_with_prefix, push_switch_steps, push_volume_steps, service_volume_names, service_volumes, step_views, switch_steps, volume_steps, with_prefix, MoveAction, MoveActionView, MoveCompensation, MoveCompensationView, MoveStep};
use crate::docker::naming::{app_volume_prefix, app_volume_prefix_spec};
use crate::text::{clone_strings, lit, views};
use vstd::prelude::*;

verus! {

/// The ids of the services that are running, in order.
pub open spec fn running_ids(services: Seq<(String, bool)>) -> Seq<Seq<char>>
    decreases services.len(),
{
    if services.len() == 0 {
        Seq::empty()
    } else if services.last().1 {
        running_ids(services.drop_last()).push(services.last().0@)
    } else {
        running_ids(services.drop_last())
    }
}

/// The ids of all the services, in order.
pub open spec fn all_ids(services: Seq<(String, bool)>) -> Seq<Seq<char>> {
    services.map_values(|s: (String, bool)| s.0@)
}

/// The steps of the move workflow: stop the application when it was running
/// (undone by restarting its deployments), stop the running services
/// (undone by starting them), copy the application's volumes and its
/// services' volumes (each undone by removing the copy), point the
/// application at the target node and create its network there (each
/// undone), provision all services there together, and deploy the first
/// active deployment there when the application was running.
pub open spec fn app_move_plan(
    was_running: bool,
    deployments: Seq<Seq<char>>,
    services: Seq<(String, bool)>,
    listed_volumes: Seq<Seq<char>>,
    app_id: Seq<char>,
    source_node: Seq<char>,
    target_node: Seq<char>,
) -> Seq<(MoveActionView, Option<MoveCompensationView>)> {
    let running = running_ids(services);
    (if was_running {
        seq![(MoveActionView::StopDeployments(deployments), Some(MoveCompensationView::RestartDeployments(deployments)))]
    } else {
        Seq::empty()
    }) + (if running.len() > 0 {
        seq![(MoveActionView::StopServices(running), Some(MoveCompensationView::StartServices(running)))]
    } else {
        Seq::empty()
    }) + volume_steps(with_prefix(listed_volumes, app_volume_prefix_spec(app_id)), false)
        + volume_steps(service_volumes(all_ids(services)), true) + switch_steps(app_id, source_node, target_node)
        + (if services.len() > 0 {
        seq![(MoveActionView::ProvisionServices(all_ids(services)), None::<MoveCompensationView>)]
    } else {
        Seq::empty()
    }) + (if was_running && deployments.len() > 0 {
        seq![(MoveActionView::RedeployOnTarget(deployments[0]), None::<MoveCompensationView>)]
    } else {
        Seq::empty()
    })
}

fn service_id_lists(services: &Vec<(String, bool)>) -> (r: (Vec<String>, Vec<String>))
    ensures
        views(r.0@) == all_ids(services@),
        views(r.1@) == running_ids(services@),
{
    let mut all: Vec<String> = Vec::new();
    let mut running: Vec<String> = Vec::new();
    let mut i: usize = 0;
    while i < services.len()
        invariant
            i <= services@.len(),
            views(all@) == all_ids(services@.take(i as int)),
            views(running@) == running_ids(services@.take(i as int)),
        decreases services@.len() - i,
    {
        let ghost (a0, r0) = (all@, running@);
        let id = services[i].0.clone();
        all.push(id.clone());
        proof {
            lemma_views_push(a0, id);
            assert(services@.take(i + 1).drop_last() =~= services@.take(i as int));
            assert(all_ids(services@.take(i + 1)) =~= all_ids(services@.take(i as int)).push(id@));
        }
        if services[i].1 {
            running.push(id);
            proof {
                lemma_views_push(r0, id);
            }
        }
        i = i + 1;
    }
    assert(services@.take(services@.len() as int) =~= services@);
    (all, running)
}

/// The steps of moving an application to another node (see
/// `app_move_plan`), from whether it was running, its active deployments,
/// its services with whether each is running, the volumes listed on the
/// source node and the two nodes.
pub fn app_move_steps(
    was_running: bool,
    deployments: &Vec<String>,
    services: &Vec<(String, bool)>,
    listed_volumes: &Vec<String>,
    app_id: &String,
    source_node: &String,
    target_node: &String,
) -> (steps: Vec<MoveStep>)
    ensures
        step_views(steps@) == app_move_plan(
            was_running,
            views(deployments@),
            services@,
            views(listed_volumes@),
            app_id@,
            source_node@,
            target_node@,
        ),
{
    let mut steps: Vec<MoveStep> = Vec::new();
    assert(step_views(steps@) =~= Seq::empty());
    let ghost s0 = steps@;
    if was_running {
        let step: MoveStep = (
            MoveAction::StopDeployments(clone_strings(deployments)),
            Some(MoveCompensation::RestartDeployments(clone_strings(deployments))),
        );
        steps.push(step);
        proof {
            lemma_step_views_push(s0, step);
        }
    }
    let (all, running) = service_id_lists(services);
    let ghost s1 = steps@;
    if running.len() > 0 {
        let step: MoveStep = (
            MoveAction::StopServices(clone_strings(&running)),
            Some(MoveCompensation::StartServices(clone_strings(&running))),
        );
        steps.push(step);
        proof {
            lemma_step_views_push(s1, step);
        }
    }
    let prefix = app_volume_prefix(app_id.as_str());
    let volumes = names_with_prefix(listed_volumes, prefix.as_str());
    push_volume_steps(&mut steps, &volumes, false);
    let service_vols = service_volume_names(&all);
    push_volume_steps(&mut steps, &service_vols, true);
    push_switch_steps(&mut steps, app_id, source_node, target_node);
    let ghost s2 = steps@;
    if services.len() > 0 {
        let step: MoveStep = (MoveAction::ProvisionServices(all), None);
        steps.push(step);
        proof {
            lemma_step_views_push(s2, step);
        }
    }
    let ghost s3 = steps@;
    if was_running && deployments.len() > 0 {
        let step: MoveStep = (MoveAction::RedeployOnTarget(deployments[0].clone()), None);
        steps.push(step);
        proof {
            lemma_step_views_push(s3, step);
        }
    }
    assert(step_views(steps@) =~= app_move_plan(
        was_running,
        views(deployments@),
        services@,
        views(listed_volumes@),
        app_id@,
        source_node@,
        target_node@,
    ));
    steps
}

/// The name a step of the move workflow is reported under.
pub open spec fn step_label_spec(a: MoveActionView) -> Seq<char> {
    match a {
        MoveActionView::StopDeployments(_) => "Stopping application containers on source host"@,
        MoveActionView::StopServices(_) => "Stopping database services on source host"@,
        MoveActionView::MigrateAppVolume(v) => "Migrating application volume "@ + v,
        MoveActionView::MigrateServiceVolume(v) => "Migrating database service volume "@ + v,
        MoveActionView::UpdateNode(_) => "Updating host node assignment in database"@,
        MoveActionView::CreateNetwork(_) => "Creating application network on target host"@,
        MoveActionView::ProvisionService(_) => "Re-provisioning database services on target host"@,
        MoveActionView::ProvisionServices(_) => "Re-provisioning database services on target host"@,
        MoveActionView::TriggerDeployment => "Starting application on target host"@,
        MoveActionView::RedeployOnTarget(_) => "Starting application on target host"@,
    }
}

/// The name a step of the move workflow is reported under.
pub fn step_label(a: &MoveAction) -> (r: String)
    ensures
        r@ == step_label_spec(a@),
{
    match a {
        MoveAction::StopDeployments(_) => lit("Stopping application containers on source host"),
        MoveAction::StopServices(_) => lit("Stopping database services on source host"),
        MoveAction::MigrateAppVolume(v) => {
            let mut r = lit("Migrating application volume ");
            r.append(v.as_str());
            r
        },
        MoveAction::MigrateServiceVolume(v) => {
            let mut r = lit("Migrating database service volume ");
            r.append(v.as_str());
            r
        },
        MoveAction::UpdateNode(_) => lit("Updating host node assignment in database"),
        MoveAction::CreateNetwork(_) => lit("Creating application network on target host"),
        MoveAction::ProvisionService(_) => lit("Re-provisioning database services on target host"),
        MoveAction::ProvisionServices(_) => lit("Re-provisioning database services on target host"),
        MoveAction::TriggerDeployment => lit("Starting application on target host"),
        MoveAction::RedeployOnTarget(_) => lit("Starting application on target host"),
    }
}

/// The name of the move workflow: `move_app:<app slug>:to:<node name>`.
pub fn move_workflow_name(app_slug: &str, node_name: &str) -> (r: String)
    ensures
        r@ == "move_app:"@ + app_slug@ + ":to:"@ + node_name@,
{
    let mut r = lit("move_app:");
    r.append(app_slug);
    r.append(":to:");
    r.append(node_name);
    r
}

} // verus!
