//! GitHub webhooks: checking that a delivery is signed with the shared
//! secret, telling the events apart, and deciding what a push deploys.
use crate::text::{chars_eq, chars_of, lit, starts_with_at, strip_prefix};
use hmac::{Hmac, Mac};
use sha2::Sha256;
use vstd::prelude::*;

verus! {

/// Why a webhook delivery is refused.
#[derive(Clone, Debug, PartialEq, Eq)]
pub enum WebhookError {
    /// The request lacks something the handler needs (400).
    BadRequest(String),
    /// The delivery is not signed with the shared secret (401).
    Unauthorized,
    /// The GitHub integration is switched off (404).
    NotFound(String),
}

/// A hexadecimal digit, either case.
pub open spec fn is_hex_digit(c: char) -> bool {
    ('0' <= c && c <= '9') || ('a' <= c && c <= 'f') || ('A' <= c && c <= 'F')
}

/// The value of a hexadecimal digit.
pub open spec fn hex_value(c: char) -> int {
    if '0' <= c && c <= '9' {
        c as int - '0' as int
    } else if 'a' <= c && c <= 'f' {
        c as int - 'a' as int + 10
    } else {
        c as int - 'A' as int + 10
    }
}

/// Text that decodes as hexadecimal: an even number of hex digits.
pub open spec fn hex_decodable(s: Seq<char>) -> bool {
    s.len() % 2 == 0 && forall|i: int| 0 <= i < s.len() ==> is_hex_digit(#[trigger] s[i])
}

/// The bytes that hexadecimal text stands for, two digits each.
pub open spec fn hex_decoded(s: Seq<char>) -> Seq<u8> {
    Seq::new(s.len() / 2, |i: int| (hex_value(s[2 * i]) * 16 + hex_value(s[2 * i + 1])) as u8)
}

/// `hex::decode` of the hex crate: the bytes of the text when it is an even
/// number of hexadecimal digits (either case), nothing otherwise.
#[verifier::external_body]
fn hex_decode(s: &str) -> (r: Option<Vec<u8>>)
    ensures
        r is Some <==> hex_decodable(s@),
        r matches Some(v) ==> v@ == hex_decoded(s@),
{
    hex::decode(s).ok()
}

/// The HMAC-SHA256 tag of a message under a key.
pub uninterp spec fn hmac_sha256(key: Seq<u8>, message: Seq<u8>) -> Seq<u8>;

/// `Hmac::<Sha256>` of the hmac crate: whether `tag` is the HMAC-SHA256 tag
/// of `message` under `key` (`verify_slice`, which also refuses a tag of the
/// wrong length; a key of any length is accepted).
#[verifier::external_body]
fn hmac_sha256_verify(key: &[u8], message: &[u8], tag: &[u8]) -> (b: bool)
    ensures
        b == (tag@ == hmac_sha256(key@, message@)),
{
    match <Hmac<Sha256> as Mac>::new_from_slice(key) {
        Ok(mut mac) => {
            mac.update(message);
            mac.verify_slice(tag).is_ok()
        },
        Err(_) => false,
    }
}

/// Whether a signature header proves that `body` was signed with `secret`:
/// `sha256=` followed by the hexadecimal HMAC-SHA256 tag of the body.
pub open spec fn signed_with(secret: Seq<u8>, header: Seq<char>, body: Seq<u8>) -> bool {
    match strip_prefix(header, "sha256="@) {
        Some(hex) => hex_decodable(hex) && hex_decoded(hex) == hmac_sha256(secret, body),
        None => false,
    }
}

/// Checks a delivery's `X-Hub-Signature-256` header against the webhook
/// secret. Without a secret (the integration is off) the delivery is not
/// found; a missing, malformed or wrong signature is unauthorized.
pub fn verify_signature(secret: Option<&[u8]>, signature: Option<&str>, body: &[u8]) -> (r: Result<(), WebhookError>)
    ensures
        match secret {
            None => r matches Err(WebhookError::NotFound(m)) && m@ == "GitHub integration is disabled"@,
            Some(key) => match signature {
                None => r matches Err(WebhookError::Unauthorized),
                Some(h) => (r is Ok <==> signed_with(key@, h@, body@)) && (r is Err ==> r matches Err(WebhookError::Unauthorized)),
            },
        },
{
    let key = match secret {
        None => return Err(WebhookError::NotFound(lit("GitHub integration is disabled"))),
        Some(k) => k,
    };
    let header = match signature {
        None => return Err(WebhookError::Unauthorized),
        Some(h) => h,
    };
    let chars = chars_of(header);
    let prefix = chars_of("sha256=");
    proof {
        reveal_strlit("sha256=");
    }
    if !starts_with_at(chars.as_slice(), 0, prefix.as_slice()) {
        proof {
            assert(chars@.subrange(0, chars@.len() as int) =~= chars@);
        }
        return Err(WebhookError::Unauthorized);
    }
    proof {
        assert(chars@.subrange(0, chars@.len() as int) =~= chars@);
    }
    let hex_part = crate::text::substring(chars.as_slice(), 7, chars.len());
    match hex_decode(hex_part.as_str()) {
        None => Err(WebhookError::Unauthorized),
        Some(tag) => if hmac_sha256_verify(key, body, tag.as_slice()) {
            Ok(())
        } else {
            Err(WebhookError::Unauthorized)
        },
    }
}

/// The kinds of webhook event the handler acts on.
#[derive(Clone, Copy, Debug, PartialEq, Eq, Structural)]
pub enum WebhookEvent {
    Push,
    Installation,
    InstallationRepositories,
    Other,
}

/// The event named by an `X-GitHub-Event` header.
pub open spec fn event_of(name: Seq<char>) -> WebhookEvent {
    if name == "push"@ {
        WebhookEvent::Push
    } else if name == "installation"@ {
        WebhookEvent::Installation
    } else if name == "installation_repositories"@ {
        WebhookEvent::InstallationRepositories
    } else {
        WebhookEvent::Other
    }
}

fn same_text(a: &str, b: &str) -> (r: bool)
    ensures
        r == (a@ == b@),
{
    let x = chars_of(a);
    let y = chars_of(b);
    chars_eq(x.as_slice(), y.as_slice())
}

/// The event of a delivery from its `X-GitHub-Event` header; a delivery
/// without one is a bad request.
pub fn event_kind(header: Option<&str>) -> (r: Result<WebhookEvent, WebhookError>)
    ensures
        match header {
            None => r matches Err(WebhookError::BadRequest(m)) && m@ == "Missing GitHub event header"@,
            Some(h) => r == Ok::<WebhookEvent, WebhookError>(event_of(h@)),
        },
{
    match header {
        None => Err(WebhookError::BadRequest(lit("Missing GitHub event header"))),
        Some(h) => if same_text(h, "push") {
            Ok(WebhookEvent::Push)
        } else if same_text(h, "installation") {
            Ok(WebhookEvent::Installation)
        } else if same_text(h, "installation_repositories") {
            Ok(WebhookEvent::InstallationRepositories)
        } else {
            Ok(WebhookEvent::Other)
        },
    }
}

/// Whether an `installation` event disconnects the installation: it was
/// deleted or suspended.
pub fn disconnects_installation(action: &str) -> (b: bool)
    ensures
        b == (action@ == "deleted"@ || action@ == "suspend"@),
{
    same_text(action, "deleted") || same_text(action, "suspend")
}

/// Whether an `installation_repositories` event disconnects repositories:
/// they were removed from the installation.
pub fn removes_repositories(action: &str) -> (b: bool)
    ensures
        b == (action@ == "removed"@),
{
    same_text(action, "removed")
}

/// What a push does to one connected application, once the repository has
/// been synced.
#[derive(Clone, Copy, Debug, PartialEq, Eq)]
pub struct PushPlan {
    /// Record the repository's default branch as the application's.
    pub update_default_branch: bool,
    /// Deploy the pushed commit.
    pub deploy: bool,
}

/// The push's effect: nothing unless it is to the repository's default
/// branch; then the application follows that branch, and the pushed commit
/// is deployed when the application deploys automatically and its latest
/// deployment is not already of that commit.
pub open spec fn push_plan_spec(
    git_ref: Seq<char>,
    repository_default_branch: Seq<char>,
    app_default_branch: Seq<char>,
    auto_deploy: bool,
    latest_commit: Option<Seq<char>>,
    after: Seq<char>,
) -> Option<PushPlan> {
    if git_ref != "refs/heads/"@ + repository_default_branch {
        None
    } else {
        Some(PushPlan {
            update_default_branch: app_default_branch != repository_default_branch,
            deploy: auto_deploy && latest_commit != Some(after),
        })
    }
}

/// Decides what a push to `git_ref` (now at commit `after`) does to one
/// application connected to the repository.
pub fn push_plan(
    git_ref: &str,
    repository_default_branch: &str,
    app_default_branch: &str,
    auto_deploy: bool,
    latest_commit: Option<&str>,
    after: &str,
) -> (p: Option<PushPlan>)
    ensures
        p == push_plan_spec(
            git_ref@,
            repository_default_branch@,
            app_default_branch@,
            auto_deploy,
            match latest_commit {
                Some(c) => Some(c@),
                None => None,
            },
            after@,
        ),
{
    let mut head = lit("refs/heads/");
    head.append(repository_default_branch);
    if !same_text(git_ref, head.as_str()) {
        return None;
    }
    let update_default_branch = !same_text(app_default_branch, repository_default_branch);
    let already = match latest_commit {
        Some(c) => same_text(c, after),
        None => false,
    };
    Some(PushPlan { update_default_branch, deploy: auto_deploy && !already })
}

/// What is known of one connection of a pushed repository by the time the
/// push is decided for it.
#[derive(Clone, Debug)]
pub struct PushConnection {
    /// The connection's status is connected.
    pub connected: bool,
    /// Its application was found and takes its code from GitHub.
    pub github_app: bool,
    /// The repository's default branch, from a sync that succeeded; `None`
    /// when the sync failed.
    pub repository_default_branch: Option<String>,
    /// The application's recorded default branch.
    pub app_default_branch: String,
    /// Whether recording the repository's default branch for the
    /// application succeeded (read only when the two branches differ).
    pub branch_update_ok: bool,
    pub auto_deploy: bool,
    /// The commit of the application's newest deployment, if it could be
    /// read and there is one.
    pub latest_commit: Option<String>,
}

/// Whether a push to `git_ref` (now at `after`) deploys the application of
/// a connection: only a connected connection of a GitHub application whose
/// repository synced, for a push to the repository's default branch, with
/// the default branch recorded (an update that fails skips the
/// connection), automatic deploys on, and the newest deployment not
/// already of that commit.
pub open spec fn push_deploys(c: PushConnection, git_ref: Seq<char>, after: Seq<char>) -> bool {
    &&& c.connected
    &&& c.github_app
    &&& match c.repository_default_branch {
        Some(b) => match push_plan_spec(
            git_ref,
            b@,
            c.app_default_branch@,
            c.auto_deploy,
            match c.latest_commit {
                Some(x) => Some(x@),
                None => None,
            },
            after,
        ) {
            Some(p) => (!p.update_default_branch || c.branch_update_ok) && p.deploy,
            None => false,
        },
        None => false,
    }
}

/// Whether a push deploys the application of one connection (see
/// `push_deploys`).
pub fn push_connection_deploys(c: &PushConnection, git_ref: &str, after: &str) -> (b: bool)
    ensures
        b == push_deploys(*c, git_ref@, after@),
{
    if !c.connected || !c.github_app {
        return false;
    }
    let branch = match &c.repository_default_branch {
        None => return false,
        Some(b) => b,
    };
    let latest = match &c.latest_commit {
        Some(x) => Some(x.as_str()),
        None => None,
    };
    match push_plan(git_ref, branch.as_str(), c.app_default_branch.as_str(), c.auto_deploy, latest, after) {
        None => false,
        Some(p) => (!p.update_default_branch || c.branch_update_ok) && p.deploy,
    }
}

/// For each connection of the pushed repository, in order, whether the push
/// deploys its application. A push that deletes the branch deploys nothing.
pub fn push_deployments(conns: &Vec<PushConnection>, git_ref: &str, after: &str, deleted: bool) -> (r: Vec<bool>)
    ensures
        r@.len() == conns@.len(),
        forall|i: int| 0 <= i < conns@.len() ==> #[trigger] r@[i] == (!deleted && push_deploys(conns@[i], git_ref@, after@)),
{
    let mut r: Vec<bool> = Vec::new();
    let mut i: usize = 0;
    while i < conns.len()
        invariant
            i <= conns@.len(),
            r@.len() == i,
            forall|k: int| 0 <= k < i ==> #[trigger] r@[k] == (!deleted && push_deploys(conns@[k], git_ref@, after@)),
        decreases conns@.len() - i,
    {
        let d = if deleted {
            false
        } else {
            push_connection_deploys(&conns[i], git_ref, after)
        };
        r.push(d);
        i = i + 1;
    }
    r
}

} // verus!
