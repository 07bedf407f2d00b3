//! Repositories connected from GitHub or any Git remote, and when their
//! mirrors are brought up to date.
pub mod github;
pub mod mirror;

use crate::text::lit;
use vstd::prelude::*;

verus! {

/// Where an application's code comes from.
#[derive(Clone, Copy, Debug, PartialEq, Eq, Structural)]
pub enum AppSource {
    Github,
    Git,
    /// Code that is not pulled from a remote.
    Other,
}

/// How an application's repository is brought up to date.
#[derive(Clone, Copy, Debug, PartialEq, Eq, Structural)]
pub enum SyncKind {
    /// Through the GitHub App, with an installation token.
    Github,
    /// From a plain Git remote, anonymously.
    Git,
    /// Nothing to fetch.
    Nothing,
}

/// How to sync an application from `source`; a GitHub application cannot
/// be synced while the GitHub integration is off.
pub fn sync_kind(source: AppSource, github_enabled: bool) -> (r: Result<SyncKind, String>)
    ensures
        match source {
            AppSource::Github => if github_enabled {
                r == Ok::<SyncKind, String>(SyncKind::Github)
            } else {
                r matches Err(m) && m@ == "GitHub integration is disabled"@
            },
            AppSource::Git => r == Ok::<SyncKind, String>(SyncKind::Git),
            AppSource::Other => r == Ok::<SyncKind, String>(SyncKind::Nothing),
        },
{
    match source {
        AppSource::Github => if github_enabled {
            Ok(SyncKind::Github)
        } else {
            Err(lit("GitHub integration is disabled"))
        },
        AppSource::Git => Ok(SyncKind::Git),
        AppSource::Other => Ok(SyncKind::Nothing),
    }
}

/// Whether an application's GitHub connection allows a sync: there must be
/// one (`Some`), and it must be connected (`true`).
pub fn github_connection_ready(connection: Option<bool>) -> (r: Result<(), String>)
    ensures
        match connection {
            None => r matches Err(m) && m@ == "GitHub connection not found"@,
            Some(false) => r matches Err(m) && m@ == "GitHub connection is disconnected"@,
            Some(true) => r is Ok,
        },
{
    match connection {
        None => Err(lit("GitHub connection not found")),
        Some(false) => Err(lit("GitHub connection is disconnected")),
        Some(true) => Ok(()),
    }
}

/// Whether a Git connection exists for the application.
pub fn git_connection_ready(found: bool) -> (r: Result<(), String>)
    ensures
        found ==> r is Ok,
        !found ==> (r matches Err(m) && m@ == "Git connection not found"@),
{
    if found {
        Ok(())
    } else {
        Err(lit("Git connection not found"))
    }
}

/// The branch a newly selected repository is mirrored at: the one asked
/// for, else the repository's default branch.
pub fn selected_branch(requested: Option<String>, default_branch: &String) -> (r: String)
    ensures
        r@ == match requested {
            Some(b) => b@,
            None => default_branch@,
        },
{
    match requested {
        Some(b) => b,
        None => default_branch.clone(),
    }
}

} // verus!
