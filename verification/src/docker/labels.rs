//! The Docker labels the platform puts on the containers it manages, by
//! which it finds them again.
use crate::models::{process_type_name, App, Deployment, ProcessType};
use crate::text::{decimal, decimal_string, lit};
use vstd::prelude::*;

verus! {

/// Marks a resource the platform manages.
pub const LABEL_MANAGED: &'static str = "slasha.managed";
/// The application a resource belongs to.
pub const LABEL_APP_ID: &'static str = "slasha.app_id";
/// The slug of that application.
pub const LABEL_APP_SLUG: &'static str = "slasha.app_slug";
/// The deployment a container belongs to.
pub const LABEL_DEPLOYMENT_ID: &'static str = "slasha.deployment_id";
/// The database service a container runs.
pub const LABEL_SERVICE_ID: &'static str = "slasha.service_id";
/// The process type a container runs (`web`, `worker`, ...).
pub const LABEL_PROCESS_TYPE: &'static str = "slasha.process_type";
/// The replica number of a process container, from 0.
pub const LABEL_INSTANCE_INDEX: &'static str = "slasha.instance_index";
/// The port the container's HTTP server listens on.
pub const LABEL_CONTAINER_PORT: &'static str = "slasha.container_port";
/// The infrastructure role of a container (such as `proxy`).
pub const LABEL_ROLE: &'static str = "slasha.role";
/// The cron job a container runs.
pub const LABEL_CRON_JOB_ID: &'static str = "slasha.cron_job_id";
/// The run of the cron job.
pub const LABEL_CRON_RUN_ID: &'static str = "slasha.cron_run_id";

pub open spec fn label_views(labels: Seq<(String, String)>) -> Seq<(Seq<char>, Seq<char>)> {
    labels.map_values(|l: (String, String)| (l.0@, l.1@))
}

/// The labels of a process container.
pub open spec fn process_labels_spec(
    app_id: Seq<char>,
    app_slug: Seq<char>,
    deployment_id: Seq<char>,
    process_type: ProcessType,
    instance_index: nat,
    container_port: Option<u16>,
) -> Seq<(Seq<char>, Seq<char>)> {
    let base = seq![
        ("slasha.managed"@, "true"@),
        ("slasha.app_id"@, app_id),
        ("slasha.deployment_id"@, deployment_id),
        ("slasha.app_slug"@, app_slug),
    ];
    let with_port = match container_port {
        Some(p) => base.push(("slasha.container_port"@, decimal(p as nat))),
        None => base,
    };
    with_port.push(("slasha.process_type"@, process_type_name(process_type))).push(
        ("slasha.instance_index"@, decimal(instance_index)),
    )
}

/// The labels of a process container: managed, its application (id and
/// slug), deployment, process type and replica number, and the port its
/// HTTP server listens on when it has one.
pub fn process_container_labels(
    app: &App,
    deployment: &Deployment,
    process_type: &ProcessType,
    instance_index: &u32,
    container_port: Option<u16>,
) -> (r: Vec<(String, String)>)
    ensures
        label_views(r@) == process_labels_spec(
            app.id@,
            app.slug@,
            deployment.id@,
            *process_type,
            *instance_index as nat,
            container_port,
        ),
{
    let mut r: Vec<(String, String)> = Vec::new();
    r.push((lit(LABEL_MANAGED), lit("true")));
    r.push((lit(LABEL_APP_ID), app.id.clone()));
    r.push((lit(LABEL_DEPLOYMENT_ID), deployment.id.clone()));
    r.push((lit(LABEL_APP_SLUG), app.slug.clone()));
    match container_port {
        Some(p) => {
            r.push((lit(LABEL_CONTAINER_PORT), decimal_string(p as u64)));
        },
        None => {},
    }
    r.push((lit(LABEL_PROCESS_TYPE), process_type.as_str()));
    r.push((lit(LABEL_INSTANCE_INDEX), decimal_string(*instance_index as u64)));
    assert(label_views(r@) =~= process_labels_spec(
        app.id@,
        app.slug@,
        deployment.id@,
        *process_type,
        *instance_index as nat,
        container_port,
    ));
    r
}

/// The labels of a database service container: managed, its application
/// and the service.
pub fn service_container_labels(app: &App, service_id: &str) -> (r: Vec<(String, String)>)
    ensures
        label_views(r@) == seq![
            ("slasha.managed"@, "true"@),
            ("slasha.app_id"@, app.id@),
            ("slasha.service_id"@, service_id@),
        ],
{
    let mut r: Vec<(String, String)> = Vec::new();
    r.push((lit(LABEL_MANAGED), lit("true")));
    r.push((lit(LABEL_APP_ID), app.id.clone()));
    r.push((lit(LABEL_SERVICE_ID), lit(service_id)));
    assert(label_views(r@) =~= seq![
        ("slasha.managed"@, "true"@),
        ("slasha.app_id"@, app.id@),
        ("slasha.service_id"@, service_id@),
    ]);
    r
}

/// The labels of a cron job's container: managed, its application (id and
/// slug), the job and the run, and the process type `cron`.
pub fn cron_container_labels(app: &App, cron_job_id: &str, cron_run_id: &str) -> (r: Vec<(String, String)>)
    ensures
        label_views(r@) == seq![
            ("slasha.managed"@, "true"@),
            ("slasha.app_id"@, app.id@),
            ("slasha.app_slug"@, app.slug@),
            ("slasha.cron_job_id"@, cron_job_id@),
            ("slasha.cron_run_id"@, cron_run_id@),
            ("slasha.process_type"@, "cron"@),
        ],
{
    let mut r: Vec<(String, String)> = Vec::new();
    r.push((lit(LABEL_MANAGED), lit("true")));
    r.push((lit(LABEL_APP_ID), app.id.clone()));
    r.push((lit(LABEL_APP_SLUG), app.slug.clone()));
    r.push((lit(LABEL_CRON_JOB_ID), lit(cron_job_id)));
    r.push((lit(LABEL_CRON_RUN_ID), lit(cron_run_id)));
    r.push((lit(LABEL_PROCESS_TYPE), lit("cron")));
    assert(label_views(r@) =~= seq![
        ("slasha.managed"@, "true"@),
        ("slasha.app_id"@, app.id@),
        ("slasha.app_slug"@, app.slug@),
        ("slasha.cron_job_id"@, cron_job_id@),
        ("slasha.cron_run_id"@, cron_run_id@),
        ("slasha.process_type"@, "cron"@),
    ]);
    r
}

} // verus!
