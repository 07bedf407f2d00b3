//! The inputs of a deployment that follow from the commit: the port the
//! web process listens on and the paths that keep data in volumes.
use crate::docker::deployment::dockerfile_parser::{
    first_expose, parse_expose, parse_volumes, volumes_of, BuildStrategy,
};
use crate::env_map::{env_get, env_lookup, env_set};
use crate::text::{
    chars_of, decimal, decimal_string, int_error_message, int_error_message_exec, lines,
    parse_unsigned, parse_unsigned_exec,
};
use vstd::prelude::*;

verus! {

/// The port a web process listens on when nothing else says.
pub open spec fn default_container_port() -> u16 {
    8080
}

/// The path of the volume the platform manages for every application.
pub open spec fn managed_data_path() -> Seq<char> {
    "/data"@
}

/// The port a deployment's web process listens on: the `PORT` variable when
/// set (it must be a port number), else the `Dockerfile`'s first `EXPOSE`,
/// else 8080. When `PORT` is not set, it is set to the port chosen.
pub fn resolve_container_port(strategy: &BuildStrategy, env_map: &mut Vec<(String, String)>) -> (r: Result<u16, String>)
    ensures
        match env_lookup(old(env_map)@, "PORT"@) {
            Some(v) => final(env_map)@ == old(env_map)@ && match parse_unsigned(v, 65535) {
                Some(p) => r == Ok::<u16, String>(p as u16),
                None => r matches Err(m) && m@ == int_error_message(v, 65535),
            },
            None => {
                let port: u16 = match strategy {
                    BuildStrategy::Dockerfile { content } => match first_expose(lines(content@), 0) {
                        Some(p) => p as u16,
                        None => default_container_port(),
                    },
                    BuildStrategy::Railpack => default_container_port(),
                };
                &&& r == Ok::<u16, String>(port)
                &&& forall|k: Seq<char>| #[trigger] env_lookup(final(env_map)@, k) == if k == "PORT"@ {
                    Some(decimal(port as nat))
                } else {
                    env_lookup(old(env_map)@, k)
                }
            },
        },
{
    match env_get(env_map, "PORT") {
        Some(v) => {
            let c = chars_of(v.as_str());
            match parse_unsigned_exec(c.as_slice(), 65535) {
                Some(p) => Ok(p as u16),
                None => Err(int_error_message_exec(c.as_slice(), 65535)),
            }
        },
        None => {
            let port: u16 = match strategy {
                BuildStrategy::Dockerfile { content } => match parse_expose(content.as_str()) {
                    Some(p) => p,
                    None => 8080,
                },
                BuildStrategy::Railpack => 8080,
            };
            env_set(env_map, "PORT", decimal_string(port as u64));
            Ok(port)
        },
    }
}

/// The paths a deployment keeps in volumes: those the `Dockerfile`'s final
/// stage declares; none for a Railpack build.
pub fn resolve_volume_paths(strategy: &BuildStrategy) -> (r: Vec<String>)
    ensures
        r@.map_values(|x: String| x@) == match strategy {
            BuildStrategy::Dockerfile { content } => volumes_of(lines(content@)),
            BuildStrategy::Railpack => Seq::<Seq<char>>::empty(),
        },
{
    match strategy {
        BuildStrategy::Dockerfile { content } => parse_volumes(content.as_str()),
        BuildStrategy::Railpack => {
            let r: Vec<String> = Vec::new();
            assert(r@.map_values(|x: String| x@) =~= Seq::<Seq<char>>::empty());
            r
        },
    }
}

} // verus!
