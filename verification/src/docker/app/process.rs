//! The process containers of a deployment, as read back from Docker.
use crate::docker::labels::{LABEL_INSTANCE_INDEX, LABEL_PROCESS_TYPE};
use crate::env_map::{env_get, env_lookup};
use crate::models::{process_type_named, ProcessContainer, ProcessStatus, ProcessType};
use crate::text::{chars_of, lit, parse_unsigned, parse_unsigned_exec, string_of, trim_start_char, trim_start_char_vec};
use vstd::prelude::*;

verus! {

/// A container as Docker lists it: its names, its labels and whether it is
/// running.
#[derive(Clone, Debug)]
pub struct ContainerSummary {
    pub names: Vec<String>,
    pub labels: Vec<(String, String)>,
    pub running: bool,
}

/// The process a listed container is, when it has a name and valid process
/// type and replica labels: its first name without the leading slashes,
/// the labelled type and replica, and whether it runs.
pub open spec fn process_of(c: ContainerSummary) -> Option<(Seq<char>, ProcessType, u32, ProcessStatus)> {
    if c.names@.len() == 0 {
        None
    } else {
        match env_lookup(c.labels@, LABEL_PROCESS_TYPE@) {
            None => None,
            Some(t) => match process_type_named(t) {
                None => None,
                Some(p) => match env_lookup(c.labels@, LABEL_INSTANCE_INDEX@) {
                    None => None,
                    Some(i) => match parse_unsigned(i, u32::MAX as nat) {
                        None => None,
                        Some(n) => Some((
                            trim_start_char(c.names@[0]@, '/'),
                            p,
                            n as u32,
                            if c.running {
                                ProcessStatus::Running
                            } else {
                                ProcessStatus::Stopped
                            },
                        )),
                    },
                },
            },
        }
    }
}

/// A process container as plain values.
pub open spec fn process_view(p: ProcessContainer) -> (Seq<char>, ProcessType, u32, ProcessStatus) {
    (p.name@, p.process_type, p.instance_index, p.status)
}

/// The process a listed container is, if it is one (see `process_of`).
pub fn process_from_summary(c: &ContainerSummary) -> (r: Option<ProcessContainer>)
    ensures
        match r {
            Some(p) => process_of(*c) == Some(process_view(p)),
            None => process_of(*c) is None,
        },
{
    if c.names.len() == 0 {
        return None;
    }
    let t = match env_get(&c.labels, LABEL_PROCESS_TYPE) {
        None => return None,
        Some(t) => t,
    };
    let p = match ProcessType::from_name(t.as_str()) {
        None => return None,
        Some(p) => p,
    };
    let i = match env_get(&c.labels, LABEL_INSTANCE_INDEX) {
        None => return None,
        Some(i) => i,
    };
    let iv = chars_of(i.as_str());
    let n = match parse_unsigned_exec(iv.as_slice(), 0xffff_ffff) {
        None => return None,
        Some(n) => n,
    };
    let name_chars = chars_of(c.names[0].as_str());
    let name = string_of(trim_start_char_vec(name_chars.as_slice(), '/').as_slice());
    let status = if c.running {
        ProcessStatus::Running
    } else {
        ProcessStatus::Stopped
    };
    Some(ProcessContainer { name, process_type: p, instance_index: n as u32, status })
}

/// The processes among listed containers, in listing order.
pub open spec fn processes_of(cs: Seq<ContainerSummary>) -> Seq<(Seq<char>, ProcessType, u32, ProcessStatus)>
    decreases cs.len(),
{
    if cs.len() == 0 {
        Seq::empty()
    } else {
        let prev = processes_of(cs.drop_last());
        match process_of(cs.last()) {
            Some(p) => prev.push(p),
            None => prev,
        }
    }
}

/// The process containers of a deployment from the containers listed under
/// its label, skipping those without valid process labels.
pub fn deployment_processes(containers: &Vec<ContainerSummary>) -> (r: Vec<ProcessContainer>)
    ensures
        r@.map_values(|p: ProcessContainer| process_view(p)) == processes_of(containers@),
{
    let mut r: Vec<ProcessContainer> = Vec::new();
    let mut i: usize = 0;
    while i < containers.len()
        invariant
            i <= containers@.len(),
            r@.map_values(|p: ProcessContainer| process_view(p)) == processes_of(containers@.take(i as int)),
        decreases containers@.len() - i,
    {
        proof {
            assert(containers@.take(i + 1).drop_last() =~= containers@.take(i as int));
            assert(containers@.take(i + 1).last() == containers@[i as int]);
        }
        let ghost before = r@;
        match process_from_summary(&containers[i]) {
            Some(p) => {
                r.push(p);
                assert(r@.map_values(|p: ProcessContainer| process_view(p)) =~= before.map_values(
                    |p: ProcessContainer| process_view(p),
                ).push(process_view(p)));
            },
            None => {},
        }
        i = i + 1;
    }
    assert(containers@.take(containers@.len() as int) =~= containers@);
    r
}

/// The prefix a process's log lines carry.
#[derive(Clone, Copy, Debug, PartialEq, Eq, Structural)]
pub enum LogPrefix {
    Web(u32),
    Worker(u32),
    System,
}

/// Web and worker replicas log under their kind and index; anything else
/// under the system prefix.
pub fn log_prefix(process_type: ProcessType, instance_index: u32) -> (r: LogPrefix)
    ensures
        r == match process_type {
            ProcessType::Web => LogPrefix::Web(instance_index),
            ProcessType::Worker => LogPrefix::Worker(instance_index),
            _ => LogPrefix::System,
        },
{
    match process_type {
        ProcessType::Web => LogPrefix::Web(instance_index),
        ProcessType::Worker => LogPrefix::Worker(instance_index),
        _ => LogPrefix::System,
    }
}

/// A label filter for a container listing: `<key>=<value>`.
pub fn label_filter(key: &str, value: &str) -> (r: String)
    ensures
        r@ == key@ + "="@ + value@,
{
    let mut r = lit(key);
    r.append("=");
    r.append(value);
    r
}

/// The log line written when a container starts: `Container <name> started`.
pub fn started_message(container_name: &str) -> (r: String)
    ensures
        r@ == "Container "@ + container_name@ + " started"@,
{
    let mut r = lit("Container ");
    r.append(container_name);
    r.append(" started");
    r
}

} // verus!
