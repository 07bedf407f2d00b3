//! Build and start commands an application sets through its environment.
use crate::docker::deployment::procfile_parser::{command_of, commands_ok, Procfile};
use crate::env_map::{env_get, env_lookup};
use crate::models::ProcessType;
use crate::text::{chars_of, lit, string_of, trim, trim_vec};
use vstd::prelude::*;

verus! {

/// The variable that holds a custom build command.
pub open spec fn build_cmd_env() -> Seq<char> {
    "SLASHA_BUILD_CMD"@
}

/// The variable that holds a custom start command for the `web` process.
pub open spec fn start_cmd_env() -> Seq<char> {
    "SLASHA_START_CMD"@
}

/// The build and start commands an application overrides.
#[derive(Clone, Debug, Default, PartialEq, Eq)]
pub struct BuildCommands {
    pub build: Option<String>,
    pub start: Option<String>,
}

/// A command override: the trimmed value, when it is not blank.
pub open spec fn override_of(v: Option<Seq<char>>) -> Option<Seq<char>> {
    match v {
        Some(s) => if trim(s).len() > 0 {
            Some(trim(s))
        } else {
            None
        },
        None => None,
    }
}

pub open spec fn opt_view(o: Option<String>) -> Option<Seq<char>> {
    match o {
        Some(s) => Some(s@),
        None => None,
    }
}

fn read_override(env_map: &Vec<(String, String)>, key: &str) -> (r: Option<String>)
    ensures
        opt_view(r) == override_of(env_lookup(env_map@, key@)),
{
    match env_get(env_map, key) {
        Some(v) => {
            let c = chars_of(v.as_str());
            let t = trim_vec(c.as_slice());
            if t.len() > 0 {
                Some(string_of(t.as_slice()))
            } else {
                None
            }
        },
        None => None,
    }
}

/// The command overrides in an application's resolved environment:
/// `SLASHA_BUILD_CMD` and `SLASHA_START_CMD`, trimmed; blank values count
/// as unset.
pub fn resolve_build_commands(env_map: &Vec<(String, String)>) -> (r: BuildCommands)
    ensures
        opt_view(r.build) == override_of(env_lookup(env_map@, build_cmd_env())),
        opt_view(r.start) == override_of(env_lookup(env_map@, start_cmd_env())),
{
    proof {
        reveal_strlit("SLASHA_BUILD_CMD");
        reveal_strlit("SLASHA_START_CMD");
    }
    BuildCommands {
        build: read_override(env_map, "SLASHA_BUILD_CMD"),
        start: read_override(env_map, "SLASHA_START_CMD"),
    }
}

/// Makes a configured start command the `web` process's command, replacing
/// any `Procfile` entry for it and keeping the other process types; without a
/// start command the `Procfile` stays as it is.
pub fn apply_start_command(procfile: Option<Procfile>, start: Option<&str>) -> (r: Option<Procfile>)
    requires
        procfile matches Some(p) ==> commands_ok(p.commands@),
    ensures
        match start {
            None => r == procfile,
            Some(s) => r matches Some(q) && commands_ok(q.commands@) && forall|p: ProcessType|
                #[trigger] command_of(q.commands@, p) == if p == ProcessType::Web {
                    Some(s@)
                } else {
                    match procfile {
                        Some(old) => command_of(old.commands@, p),
                        None => None,
                    }
                },
        },
{
    match start {
        None => procfile,
        Some(s) => {
            let mut p = match procfile {
                Some(p) => p,
                None => Procfile::new(),
            };
            p.insert(ProcessType::Web, lit(s));
            Some(p)
        },
    }
}

} // verus!
