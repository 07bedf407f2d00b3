//! Alert rules evaluated against the platform's state: which incidents they
//! open, renotify and resolve, and the messages sent for them.
pub mod delivery;
pub mod evaluation;
pub mod incident;
pub mod snapshot;

use vstd::prelude::*;

verus! {

/// How often, in seconds, the alert worker evaluates the enabled rules.
pub const CHECK_INTERVAL: u64 = 60;

} // verus!
