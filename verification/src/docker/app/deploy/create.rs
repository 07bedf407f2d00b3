//! What a process container of a deployment is created with: image, labels,
//! environment, command, restart policy, volumes and networks. Creating it
//! on a node is left to the caller.
use crate::docker::app::image::{image_tag, image_tag_spec};
use crate::docker::deployment::litestream::{plan, plan_command, config_yaml_spec, replica_path_spec, prefix_view};
use crate::docker::labels::{label_views, process_container_labels, process_labels_spec};
use crate::docker::naming::{
    app_network_name, app_volume_name, app_volume_name_spec, process_container_name,
    process_container_name_spec,
};
use crate::env_map::{env_lookup, env_set};
use crate::models::{App, AppBackup, Deployment, ProcessType};
use crate::text::{chars_eq, chars_of, lit};
use vstd::prelude::*;
use vstd::string::StringExecFns;

verus! {

/// When Docker restarts a container.
#[derive(Clone, Copy, Debug, PartialEq, Eq, Structural)]
pub enum RestartPolicyName {
    /// Never (Docker's empty policy name).
    No,
    /// Always, unless it was stopped on purpose.
    UnlessStopped,
}

/// A volume mounted into a container.
#[derive(Clone, Debug, PartialEq, Eq)]
pub struct VolumeMount {
    pub source: String,
    pub target: String,
    pub read_only: bool,
}

/// Everything a process container is created with.
#[derive(Clone, Debug)]
pub struct ContainerSpec {
    pub name: String,
    pub image: String,
    pub labels: Vec<(String, String)>,
    /// The environment variables.
    pub env: Vec<(String, String)>,
    pub entrypoint: Option<Vec<String>>,
    pub cmd: Option<Vec<String>>,
    pub restart_policy: RestartPolicyName,
    pub mounts: Vec<VolumeMount>,
    /// The networks the container joins.
    pub networks: Vec<String>,
}

/// Whether the container's database is replicated, and why not.
#[derive(Clone, Copy, Debug, PartialEq, Eq, Structural)]
pub enum Replication {
    /// Backups are off, or this is not the first web replica.
    NotApplicable,
    /// The command is wrapped by Litestream.
    Wrapped,
    /// Backups are on but the web process has no start command.
    NoStartCommand,
    /// Backups are on but the Litestream binaries are not available.
    NoBinary,
}

/// The inputs of one process container.
#[derive(Clone, Debug)]
pub struct CreateContainerContext {
    pub process_type: ProcessType,
    pub instance_index: u32,
    pub container_port: Option<u16>,
    pub cmd: Option<String>,
    pub env_map: Vec<(String, String)>,
    pub volume_paths: Vec<String>,
    pub backup: Option<AppBackup>,
    /// The volume that holds the Litestream binaries, when it is ready.
    pub litestream_volume: Option<String>,
}

/// The paths an application's container mounts volumes at: the managed
/// `/data` first, then the other declared paths in order.
pub open spec fn mount_paths(volume_paths: Seq<Seq<char>>) -> Seq<Seq<char>>
    decreases volume_paths.len(),
{
    if volume_paths.len() == 0 {
        seq!["/data"@]
    } else {
        let prev = mount_paths(volume_paths.drop_last());
        if volume_paths.last() == "/data"@ {
            prev
        } else {
            prev.push(volume_paths.last())
        }
    }
}

/// What an application's container mounts: the managed `/data` first and
/// only there (a declared `/data` adds no second mount at the same place);
/// every other mount is a declared path; every declared path is mounted.
pub proof fn lemma_mount_paths(volume_paths: Seq<Seq<char>>)
    ensures
        ({
            let m = mount_paths(volume_paths);
            &&& m.len() >= 1
            &&& m[0] == "/data"@
            &&& forall|i: int| 1 <= i < m.len() ==> #[trigger] m[i] != "/data"@
            &&& forall|i: int| 1 <= i < m.len() ==> exists|j: int| 0 <= j < volume_paths.len() && #[trigger] m[i] == volume_paths[j]
            &&& forall|j: int| 0 <= j < volume_paths.len() ==> exists|i: int| 0 <= i < m.len() && m[i] == #[trigger] volume_paths[j]
            &&& m.len() <= volume_paths.len() + 1
        }),
    decreases volume_paths.len(),
{
    if volume_paths.len() > 0 {
        let pv = volume_paths.drop_last();
        lemma_mount_paths(pv);
        let prev = mount_paths(pv);
        let m = mount_paths(volume_paths);
        let n = volume_paths.len() - 1;
        assert forall|i: int| 1 <= i < m.len() implies exists|j: int| 0 <= j < volume_paths.len() && #[trigger] m[i] == volume_paths[j] by {
            if i < prev.len() {
                let j = choose|j: int| 0 <= j < pv.len() && #[trigger] prev[i] == pv[j];
                assert(m[i] == prev[i]);
                assert(volume_paths[j] == pv[j]);
            } else {
                assert(m[i] == volume_paths[n]);
            }
        }
        assert forall|j: int| 0 <= j < volume_paths.len() implies exists|i: int| 0 <= i < m.len() && m[i] == #[trigger] volume_paths[j] by {
            if j < n {
                assert(volume_paths[j] == pv[j]);
                let i = choose|i: int| 0 <= i < prev.len() && prev[i] == #[trigger] pv[j];
                assert(m[i] == prev[i]);
            } else if volume_paths[n] == "/data"@ {
                assert(m[0] == prev[0]);
            } else {
                assert(m[prev.len() as int] == volume_paths[n]);
            }
        }
        assert forall|i: int| 1 <= i < m.len() implies #[trigger] m[i] != "/data"@ by {
            if i < prev.len() {
                assert(m[i] == prev[i]);
            }
        }
    }
}

/// The mount paths, as strings.
pub fn mount_paths_exec(volume_paths: &Vec<String>) -> (r: Vec<String>)
    ensures
        r@.map_values(|x: String| x@) == mount_paths(volume_paths@.map_values(|x: String| x@)),
{
    let ghost pv = volume_paths@.map_values(|x: String| x@);
    let data = chars_of("/data");
    proof {
        reveal_strlit("/data");
    }
    let mut r: Vec<String> = Vec::new();
    r.push(lit("/data"));
    proof {
        assert(pv.take(0) == Seq::<Seq<char>>::empty());
        assert(r@.map_values(|x: String| x@) =~= seq!["/data"@]);
    }
    let mut i: usize = 0;
    while i < volume_paths.len()
        invariant
            i <= volume_paths@.len(),
            pv == volume_paths@.map_values(|x: String| x@),
            data@ == "/data"@,
            r@.map_values(|x: String| x@) == mount_paths(pv.take(i as int)),
        decreases volume_paths@.len() - i,
    {
        proof {
            assert(pv.take(i + 1).drop_last() == pv.take(i as int));
            assert(pv.take(i + 1).last() == volume_paths@[i as int]@);
        }
        let p = chars_of(volume_paths[i].as_str());
        if !chars_eq(p.as_slice(), data.as_slice()) {
            let ghost before = r@.map_values(|x: String| x@);
            r.push(volume_paths[i].clone());
            proof {
                assert(r@.map_values(|x: String| x@) == before.push(volume_paths@[i as int]@));
            }
        }
        i = i + 1;
    }
    proof {
        assert(pv.take(volume_paths@.len() as int) == pv);
    }
    r
}

/// The volumes of an application mounted at the given paths: each named
/// after the application and the path.
pub fn app_volume_mounts(app_id: &str, paths: &Vec<String>) -> (r: Vec<VolumeMount>)
    ensures
        r@.len() == paths@.len(),
        forall|i: int| 0 <= i < r@.len() ==> (#[trigger] r@[i]).source@ == app_volume_name_spec(app_id@, paths@[i]@)
            && r@[i].target@ == paths@[i]@ && !r@[i].read_only,
{
    let mut r: Vec<VolumeMount> = Vec::new();
    let mut i: usize = 0;
    while i < paths.len()
        invariant
            i <= paths@.len(),
            r@.len() == i,
            forall|q: int| 0 <= q < i ==> (#[trigger] r@[q]).source@ == app_volume_name_spec(app_id@, paths@[q]@)
                && r@[q].target@ == paths@[q]@ && !r@[q].read_only,
        decreases paths@.len() - i,
    {
        let source = app_volume_name(app_id, paths[i].as_str());
        r.push(VolumeMount { source, target: paths[i].clone(), read_only: false });
        i = i + 1;
    }
    r
}

/// The mount of the shared volume that holds the replication binaries.
pub fn binary_mount() -> (m: VolumeMount)
    ensures
        m.source@ == "slasha-litestream"@,
        m.target@ == "/slasha"@,
        m.read_only,
{
    VolumeMount { source: lit("slasha-litestream"), target: lit("/slasha"), read_only: true }
}

/// Whether the container's command is wrapped for replication: backups are
/// on and this is the first web replica.
pub open spec fn replicates(ctx: CreateContainerContext) -> bool {
    ctx.process_type == ProcessType::Web && ctx.instance_index == 0 && match ctx.backup {
        Some(b) => b.enabled,
        None => false,
    }
}

pub open spec fn replication_of(ctx: CreateContainerContext) -> Replication {
    if !replicates(ctx) {
        Replication::NotApplicable
    } else if ctx.cmd is None {
        Replication::NoStartCommand
    } else if ctx.litestream_volume is None {
        Replication::NoBinary
    } else {
        Replication::Wrapped
    }
}

/// The command the container runs for the command `c`: wrapped by
/// Litestream when replication applies and the binaries are available.
pub open spec fn run_command(ctx: CreateContainerContext, c: Seq<char>) -> Seq<char> {
    if replication_of(ctx) == Replication::Wrapped {
        match ctx.backup {
            Some(b) => plan_command(
                b.db_path@,
                config_yaml_spec(b.db_path@, b.bucket@, replica_path_spec(prefix_view(b.path_prefix)), b.endpoint@),
                c,
                b.restore_pending,
            ),
            None => c,
        }
    } else {
        c
    }
}

/// The value of variable `k` in the container: the application's
/// environment, plus the bucket credentials when the command is wrapped.
pub open spec fn container_env(ctx: CreateContainerContext, k: Seq<char>) -> Option<Seq<char>> {
    match ctx.backup {
        Some(b) => if replication_of(ctx) == Replication::Wrapped && k == "LITESTREAM_SECRET_ACCESS_KEY"@ {
            Some(b.secret_access_key@)
        } else if replication_of(ctx) == Replication::Wrapped && k == "LITESTREAM_ACCESS_KEY_ID"@ {
            Some(b.access_key_id@)
        } else {
            env_lookup(ctx.env_map@, k)
        },
        None => env_lookup(ctx.env_map@, k),
    }
}

/// `NAME=value` for each variable.
pub open spec fn env_entries(env: Seq<(String, String)>) -> Seq<Seq<char>> {
    env.map_values(|e: (String, String)| e.0@ + "="@ + e.1@)
}

/// The environment as Docker takes it: `NAME=value` entries, or none at
/// all when there are no variables.
pub fn env_list(env: &Vec<(String, String)>) -> (r: Option<Vec<String>>)
    ensures
        match r {
            None => env@.len() == 0,
            Some(entries) => env@.len() > 0 && entries@.map_values(|x: String| x@) == env_entries(env@),
        },
{
    if env.len() == 0 {
        None
    } else {
        Some(env_entries_exec(env))
    }
}

fn env_entries_exec(env: &Vec<(String, String)>) -> (r: Vec<String>)
    ensures
        r@.map_values(|x: String| x@) == env_entries(env@),
{
    let mut r: Vec<String> = Vec::new();
    let mut i: usize = 0;
    while i < env.len()
        invariant
            i <= env@.len(),
            r@.len() == i,
            forall|q: int| 0 <= q < i ==> (#[trigger] r@[q])@ == env@[q].0@ + "="@ + env@[q].1@,
        decreases env@.len() - i,
    {
        let mut e = env[i].0.clone();
        e.append("=");
        e.append(env[i].1.as_str());
        r.push(e);
        i = i + 1;
    }
    assert(r@.map_values(|x: String| x@) =~= env_entries(env@));
    r
}

/// What a process container of a deployment is created with. It runs the
/// deployment's image under its process container name and labels; its
/// command (if any) runs through `sh -c`, wrapped by Litestream when it is
/// the first web replica of an application with backups on and the binaries
/// are available; release containers are never restarted, others unless
/// stopped; it mounts the application's volumes (`/data` first) plus the
/// binaries when wrapped; it joins the application's network and, for web
/// processes, the proxy network.
pub fn create_process_container(
    app: &App,
    deployment: &Deployment,
    ctx: &CreateContainerContext,
    proxy_network: &str,
) -> (r: (ContainerSpec, Replication))
    ensures
        r.1 == replication_of(*ctx),
        r.0.name@ == process_container_name_spec(app.id@, deployment.id@, ctx.process_type, ctx.instance_index as nat),
        r.0.image@ == image_tag_spec(app.slug@, deployment.id@),
        label_views(r.0.labels@) == process_labels_spec(app.id@, app.slug@, deployment.id@, ctx.process_type, ctx.instance_index as nat, ctx.container_port),
        r.0.restart_policy == if ctx.process_type == ProcessType::Release {
            RestartPolicyName::No
        } else {
            RestartPolicyName::UnlessStopped
        },
        match ctx.cmd {
            None => r.0.entrypoint is None && r.0.cmd is None,
            Some(c) => {
                &&& r.0.entrypoint matches Some(ep) && ep@.map_values(|x: String| x@) == seq!["sh"@, "-c"@]
                &&& r.0.cmd matches Some(cv) && cv@.len() == 1 && cv@[0]@ == run_command(*ctx, c@)
            },
        },
        r.0.mounts@.len() == mount_paths(ctx.volume_paths@.map_values(|x: String| x@)).len() + (if r.1 == Replication::Wrapped { 1int } else { 0int }),
        forall|i: int| 0 <= i < mount_paths(ctx.volume_paths@.map_values(|x: String| x@)).len() ==>
            (#[trigger] r.0.mounts@[i]).target@ == mount_paths(ctx.volume_paths@.map_values(|x: String| x@))[i]
            && r.0.mounts@[i].source@ == app_volume_name_spec(app.id@, mount_paths(ctx.volume_paths@.map_values(|x: String| x@))[i])
            && !r.0.mounts@[i].read_only,
        r.1 == Replication::Wrapped ==> r.0.mounts@.last().source@ == "slasha-litestream"@
            && r.0.mounts@.last().target@ == "/slasha"@ && r.0.mounts@.last().read_only,
        r.0.networks@.map_values(|x: String| x@) == if ctx.process_type == ProcessType::Web {
            seq!["slasha-app-net-"@ + app.id@, proxy_network@]
        } else {
            seq!["slasha-app-net-"@ + app.id@]
        },
        forall|k: Seq<char>| #[trigger] env_lookup(r.0.env@, k) == container_env(*ctx, k),
{
    let name = process_container_name(app.id.as_str(), deployment.id.as_str(), &ctx.process_type, ctx.instance_index);
    let paths = mount_paths_exec(&ctx.volume_paths);
    let mut mounts = app_volume_mounts(app.id.as_str(), &paths);
    let mut cmd: Option<String> = match &ctx.cmd {
        Some(c) => Some(c.clone()),
        None => None,
    };
    let mut env_map = crate::env_map::copy_env(&ctx.env_map);
    let is_web_zero = ctx.process_type == ProcessType::Web && ctx.instance_index == 0;
    let replication = match &ctx.backup {
        Some(backup) => {
            if backup.enabled && is_web_zero {
                match (&ctx.cmd, &ctx.litestream_volume) {
                    (Some(app_cmd), Some(_volume)) => {
                        let p = plan(backup, app_cmd.as_str(), backup.restore_pending);
                        cmd = Some(p.command);
                        env_set(&mut env_map, "LITESTREAM_ACCESS_KEY_ID", p.env[0].1.clone());
                        env_set(&mut env_map, "LITESTREAM_SECRET_ACCESS_KEY", p.env[1].1.clone());
                        mounts.push(binary_mount());
                        Replication::Wrapped
                    },
                    (None, _) => Replication::NoStartCommand,
                    (_, None) => Replication::NoBinary,
                }
            } else {
                Replication::NotApplicable
            }
        },
        None => Replication::NotApplicable,
    };
    let labels = process_container_labels(app, deployment, &ctx.process_type, &ctx.instance_index, ctx.container_port);
    let mut networks: Vec<String> = Vec::new();
    networks.push(app_network_name(app.id.as_str()));
    if ctx.process_type == ProcessType::Web {
        networks.push(lit(proxy_network));
    }
    let (entrypoint, container_cmd) = match cmd {
        Some(c) => {
            let mut ep: Vec<String> = Vec::new();
            ep.push(lit("sh"));
            ep.push(lit("-c"));
            let mut cv: Vec<String> = Vec::new();
            cv.push(c);
            (Some(ep), Some(cv))
        },
        None => (None, None),
    };
    let restart_policy = if ctx.process_type == ProcessType::Release {
        RestartPolicyName::No
    } else {
        RestartPolicyName::UnlessStopped
    };
    let spec = ContainerSpec {
        name,
        image: image_tag(app.slug.as_str(), deployment.id.as_str()),
        labels,
        env: env_map,
        entrypoint,
        cmd: container_cmd,
        restart_policy,
        mounts,
        networks,
    };
    (spec, replication)
}

} // verus!
