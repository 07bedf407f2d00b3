//! The release command: run once in its own container before the new
//! replicas start; the deployment goes on only if it exits with 0.
use crate::docker::error::DockerError;
use crate::text::lit;
use vstd::prelude::*;

verus! {

/// The log line announcing the release command.
pub fn release_message(cmd: &str) -> (m: String)
    ensures
        m@ == "Running release command: "@ + cmd@,
{
    let mut m = lit("Running release command: ");
    m.append(cmd);
    m
}

/// The log line after a release command that succeeded.
pub fn release_done_message() -> (m: String)
    ensures
        m@ == "Release command completed successfully"@,
{
    lit("Release command completed successfully")
}

/// The result of a release from the exit status its container was waited
/// for with (`None` when the wait ended without one): only exit code 0
/// lets the deployment go on.
pub fn release_result(exit_code: Option<i64>) -> (r: Result<(), DockerError>)
    ensures
        match exit_code {
            None => r matches Err(DockerError::BuildFailed(m)) && m@ == "Release container wait stream ended prematurely"@,
            Some(c) => if c == 0 {
                r is Ok
            } else {
                r == Err::<(), DockerError>(DockerError::ReleaseFailed(c))
            },
        },
{
    match exit_code {
        None => Err(DockerError::BuildFailed(lit("Release container wait stream ended prematurely"))),
        Some(c) => if c == 0 {
            Ok(())
        } else {
            Err(DockerError::ReleaseFailed(c))
        },
    }
}

} // verus!
