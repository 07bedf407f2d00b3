//! Docker connections to the nodes: how a remote node is addressed and when
//! a cached connection is dropped.
use crate::text::{decimal, decimal_string, lit};
use vstd::prelude::*;

verus! {

/// How often, in seconds, cached connections are pinged.
pub const PING_INTERVAL_SECS: u64 = 30;

/// How long, in seconds, a ping may take before the connection counts as
/// dead.
pub const PING_TIMEOUT_SECS: u64 = 5;

/// The SSH address of a remote node's Docker daemon:
/// `ssh://<user>@<host>:<port>`, with `root`, an empty host and port 22
/// where the node leaves them unset.
pub fn ssh_address(user: &Option<String>, host: &Option<String>, port: Option<u16>) -> (r: String)
    ensures
        r@ == "ssh://"@ + (match user {
            Some(u) => u@,
            None => "root"@,
        }) + "@"@ + (match host {
            Some(h) => h@,
            None => Seq::<char>::empty(),
        }) + ":"@ + decimal((match port {
            Some(p) => p,
            None => 22u16,
        }) as nat),
{
    let mut r = lit("ssh://");
    match user {
        Some(u) => r.append(u.as_str()),
        None => r.append("root"),
    }
    r.append("@");
    match host {
        Some(h) => r.append(h.as_str()),
        None => {
            assert(r@ + Seq::<char>::empty() =~= r@);
        },
    }
    r.append(":");
    let p: u16 = match port {
        Some(p) => p,
        None => 22,
    };
    r.append(decimal_string(p as u64).as_str());
    r
}

/// Whether a cached connection is dropped after a ping: the local node's
/// never is; another node's is when the ping failed or timed out.
pub fn evicts(node_id: &str, local_node_id: &str, ping_ok: bool) -> (b: bool)
    ensures
        b == (node_id@ != local_node_id@ && !ping_ok),
{
    let a = crate::text::chars_of(node_id);
    let l = crate::text::chars_of(local_node_id);
    !crate::text::chars_eq(a.as_slice(), l.as_slice()) && !ping_ok
}

} // verus!
