//! The records the platform keeps about applications and their processes, as
//! far as the deployment rules read them.
use crate::text::lit;
use vstd::prelude::*;

verus! {

/// The kind of process a container runs.
#[derive(Clone, Copy, Debug, PartialEq, Eq, Structural, Hash)]
pub enum ProcessType {
    /// Serves HTTP traffic.
    Web,
    /// Runs in the background.
    Worker,
    /// Runs once before a deployment goes live.
    Release,
}

/// The lower-case name of a process type.
pub open spec fn process_type_name(p: ProcessType) -> Seq<char> {
    match p {
        ProcessType::Web => "web"@,
        ProcessType::Worker => "worker"@,
        ProcessType::Release => "release"@,
    }
}

/// The process type with the given lower-case name.
pub open spec fn process_type_named(name: Seq<char>) -> Option<ProcessType> {
    if name == "web"@ {
        Some(ProcessType::Web)
    } else if name == "worker"@ {
        Some(ProcessType::Worker)
    } else if name == "release"@ {
        Some(ProcessType::Release)
    } else {
        None
    }
}

impl ProcessType {
    /// The lower-case name of the process type.
    pub fn as_str(&self) -> (s: String)
        ensures
            s@ == process_type_name(*self),
    {
        proof {
            reveal_strlit("web");
            reveal_strlit("worker");
            reveal_strlit("release");
        }
        match self {
            ProcessType::Web => lit("web"),
            ProcessType::Worker => lit("worker"),
            ProcessType::Release => lit("release"),
        }
    }

    /// The process type with the given lower-case name.
    pub fn from_name(name: &str) -> (r: Option<ProcessType>)
        ensures
            r == process_type_named(name@),
            match r {
                Some(p) => process_type_name(p) == name@,
                None => forall|p: ProcessType| process_type_name(p) != name@,
            },
    {
        let v = crate::text::chars_of(name);
        let web = crate::text::chars_of("web");
        let worker = crate::text::chars_of("worker");
        let release = crate::text::chars_of("release");
        proof {
            reveal_strlit("web");
            reveal_strlit("worker");
            reveal_strlit("release");
        }
        if crate::text::chars_eq(v.as_slice(), web.as_slice()) {
            Some(ProcessType::Web)
        } else if crate::text::chars_eq(v.as_slice(), worker.as_slice()) {
            Some(ProcessType::Worker)
        } else if crate::text::chars_eq(v.as_slice(), release.as_slice()) {
            Some(ProcessType::Release)
        } else {
            None
        }
    }
}

/// Whether a process container is running.
#[derive(Clone, Copy, Debug, PartialEq, Eq, Structural, Hash)]
pub enum ProcessStatus {
    Running,
    Stopped,
}

/// A process container of a deployment, as read from its Docker labels.
#[derive(Clone, Debug)]
pub struct ProcessContainer {
    pub name: String,
    pub process_type: ProcessType,
    pub instance_index: u32,
    pub status: ProcessStatus,
}

/// The replication settings of an application's SQLite database.
#[derive(Clone, Debug)]
pub struct AppBackup {
    pub id: String,
    pub enabled: bool,
    /// The database file inside the container.
    pub db_path: String,
    pub bucket: String,
    pub endpoint: String,
    /// Where in the bucket the replica lives; empty or none for the default.
    pub path_prefix: Option<String>,
    pub access_key_id: String,
    pub secret_access_key: String,
    /// Whether the next start restores the database from the replica.
    pub restore_pending: bool,
}

/// A point in time: whole seconds since the epoch and nanoseconds within
/// the second.
#[derive(Clone, Copy, Debug, PartialEq, Eq)]
pub struct Timestamp {
    pub secs: i64,
    pub nanos: u32,
}

/// Where a deployment stands.
#[derive(Clone, Copy, Debug, PartialEq, Eq, Structural, Hash)]
pub enum DeploymentStatus {
    Pending,
    Building,
    Running,
    Stopped,
    Failed,
}

/// A deployment of an application: one commit, built into one image.
#[derive(Clone, Debug)]
pub struct Deployment {
    pub id: String,
    pub commit_sha: String,
    pub status: DeploymentStatus,
}

/// An application, as far as the deployment rules read it.
#[derive(Clone, Debug)]
pub struct App {
    pub id: String,
    pub name: String,
    pub slug: String,
    /// The directory of the application inside its repository; empty for
    /// the repository root.
    pub root_dir: String,
}

/// How many replicas of a process type an application wants.
#[derive(Clone, Copy, Debug, PartialEq, Eq)]
pub struct AppScale {
    pub process_type: ProcessType,
    pub desired: i32,
}

/// The kind of a database service, as far as the environment rules tell
/// kinds apart.
#[derive(Clone, Copy, Debug, PartialEq, Eq, Structural)]
pub enum ServiceKind {
    Redis,
    Other,
}

/// A database service attached to an application, with the variables it
/// exports (its own variables plus its `DATABASE_URL`).
#[derive(Clone, Debug)]
pub struct ServiceEnv {
    pub id: String,
    pub name: String,
    pub kind: ServiceKind,
    pub running: bool,
    pub env: Vec<(String, String)>,
}

/// Where a cron job's command runs.
#[derive(Clone, Copy, Debug, PartialEq, Eq, Structural)]
pub enum CronRuntime {
    /// In the application's running image, with its environment and data.
    App,
    /// In a small utility image with common network tools.
    Utility,
}

/// Where a run of a cron job stands.
#[derive(Clone, Copy, Debug, PartialEq, Eq, Structural)]
pub enum CronRunStatus {
    Pending,
    Running,
    Succeeded,
    Failed,
    TimedOut,
    Skipped,
}

impl CronRunStatus {
    /// The status as it is shown to users.
    pub open spec fn label(self) -> Seq<char> {
        match self {
            CronRunStatus::Pending => "pending"@,
            CronRunStatus::Running => "running"@,
            CronRunStatus::Succeeded => "succeeded"@,
            CronRunStatus::Failed => "failed"@,
            CronRunStatus::TimedOut => "timed_out"@,
            CronRunStatus::Skipped => "skipped"@,
        }
    }

    /// The status's name as a string.
    pub fn as_str(&self) -> (s: &'static str)
        ensures
            s@ == self.label(),
    {
        match self {
            CronRunStatus::Pending => "pending",
            CronRunStatus::Running => "running",
            CronRunStatus::Succeeded => "succeeded",
            CronRunStatus::Failed => "failed",
            CronRunStatus::TimedOut => "timed_out",
            CronRunStatus::Skipped => "skipped",
        }
    }
}

impl DeploymentStatus {
    /// The status as it is shown to users.
    pub open spec fn label(self) -> Seq<char> {
        match self {
            DeploymentStatus::Pending => "pending"@,
            DeploymentStatus::Building => "building"@,
            DeploymentStatus::Running => "running"@,
            DeploymentStatus::Stopped => "stopped"@,
            DeploymentStatus::Failed => "failed"@,
        }
    }

    /// The status's name as a string.
    pub fn as_str(&self) -> (s: &'static str)
        ensures
            s@ == self.label(),
    {
        match self {
            DeploymentStatus::Pending => "pending",
            DeploymentStatus::Building => "building",
            DeploymentStatus::Running => "running",
            DeploymentStatus::Stopped => "stopped",
            DeploymentStatus::Failed => "failed",
        }
    }
}

} // verus!
