//! The errors of Docker operations, what they say, and how an HTTP request
//! that hit one is answered.
use crate::text::{decimal, decimal_string, lit, signed_decimal, signed_decimal_string};
use vstd::prelude::*;

verus! {

/// Why a Docker operation failed. Errors of other components are kept as
/// their messages.
#[derive(Clone, Debug, PartialEq, Eq)]
pub enum DockerError {
    Db(String),
    Operation(String),
    /// A Git error, with Git's own message.
    Git(String),
    GitArchiveFailed(String),
    DockerClient(String),
    BuildFailed(String),
    ServiceNotFound(String),
    ServiceNotRunning(String),
    EnvResolveFailed(String),
    Io(String),
    Utf8(String),
    TokioJoin(String),
    Proxy(String),
    ScaleError(String),
    ReleaseFailed(i64),
    ServiceHealthcheckTimeout(String, u64),
    ServiceHealthcheckFailed(String),
    AppNotReady(String),
    ArtifactUnavailable(String),
    Validation(String),
    Other(String),
}

/// What an error says.
pub open spec fn docker_error_message(e: DockerError) -> Seq<char> {
    match e {
        DockerError::Db(m) => "Database error: "@ + m@,
        DockerError::Operation(m) => m@,
        DockerError::Git(m) => "Git error: "@ + m@,
        DockerError::GitArchiveFailed(m) => "Git archive failed: "@ + m@,
        DockerError::DockerClient(m) => "Docker client error: "@ + m@,
        DockerError::BuildFailed(m) => "Build failed: "@ + m@,
        DockerError::ServiceNotFound(s) => "Service \""@ + s@ + "\" not found"@,
        DockerError::ServiceNotRunning(s) => "Service \""@ + s@ + "\" is not running"@,
        DockerError::EnvResolveFailed(m) => "Environment resolution failed: "@ + m@,
        DockerError::Io(m) => "I/O error: "@ + m@,
        DockerError::Utf8(m) => "UTF-8 error: "@ + m@,
        DockerError::TokioJoin(m) => "Tokio join error: "@ + m@,
        DockerError::Proxy(m) => "Proxy error: "@ + m@,
        DockerError::ScaleError(m) => "Scale error: "@ + m@,
        DockerError::ReleaseFailed(c) => "Release command failed with exit code "@ + signed_decimal(c as int),
        DockerError::ServiceHealthcheckTimeout(s, t) => "Service \""@ + s@ + "\" did not become healthy within "@
            + decimal(t as nat) + "s"@,
        DockerError::ServiceHealthcheckFailed(s) => "Service \""@ + s@ + "\" reported unhealthy"@,
        DockerError::AppNotReady(m) => "App failed readiness check: "@ + m@,
        DockerError::ArtifactUnavailable(d) => "Deployment \""@ + d@ + "\" no longer has a retained image"@,
        DockerError::Validation(m) => "Validation error: "@ + m@,
        DockerError::Other(m) => m@,
    }
}

fn prefixed(prefix: &str, m: &String) -> (r: String)
    ensures
        r@ == prefix@ + m@,
{
    let mut r = lit(prefix);
    r.append(m.as_str());
    r
}

fn quoted(before: &str, s: &String, after: &str) -> (r: String)
    ensures
        r@ == before@ + s@ + after@,
{
    let mut r = lit(before);
    r.append(s.as_str());
    r.append(after);
    r
}

impl DockerError {
    /// What the error says.
    pub fn message(&self) -> (m: String)
        ensures
            m@ == docker_error_message(*self),
    {
        match self {
            DockerError::Db(m) => prefixed("Database error: ", m),
            DockerError::Operation(m) => m.clone(),
            DockerError::Git(m) => prefixed("Git error: ", m),
            DockerError::GitArchiveFailed(m) => prefixed("Git archive failed: ", m),
            DockerError::DockerClient(m) => prefixed("Docker client error: ", m),
            DockerError::BuildFailed(m) => prefixed("Build failed: ", m),
            DockerError::ServiceNotFound(s) => quoted("Service \"", s, "\" not found"),
            DockerError::ServiceNotRunning(s) => quoted("Service \"", s, "\" is not running"),
            DockerError::EnvResolveFailed(m) => prefixed("Environment resolution failed: ", m),
            DockerError::Io(m) => prefixed("I/O error: ", m),
            DockerError::Utf8(m) => prefixed("UTF-8 error: ", m),
            DockerError::TokioJoin(m) => prefixed("Tokio join error: ", m),
            DockerError::Proxy(m) => prefixed("Proxy error: ", m),
            DockerError::ScaleError(m) => prefixed("Scale error: ", m),
            DockerError::ReleaseFailed(c) => prefixed("Release command failed with exit code ", &signed_decimal_string(*c)),
            DockerError::ServiceHealthcheckTimeout(s, t) => {
                let mut r = quoted("Service \"", s, "\" did not become healthy within ");
                r.append(decimal_string(*t).as_str());
                r.append("s");
                r
            },
            DockerError::ServiceHealthcheckFailed(s) => quoted("Service \"", s, "\" reported unhealthy"),
            DockerError::AppNotReady(m) => prefixed("App failed readiness check: ", m),
            DockerError::ArtifactUnavailable(d) => quoted("Deployment \"", d, "\" no longer has a retained image"),
            DockerError::Validation(m) => prefixed("Validation error: ", m),
            DockerError::Other(m) => m.clone(),
        }
    }
}

/// How a request that failed with a Docker error is answered.
#[derive(Clone, Debug, PartialEq, Eq)]
pub enum HttpAnswer {
    /// 404 with a message.
    NotFound(String),
    /// 400 with a message.
    BadRequest(String),
    /// 500; the error itself is reported to the operator, not the client.
    Internal,
}

/// An answer with its message as plain text.
pub enum HttpAnswerView {
    NotFound(Seq<char>),
    BadRequest(Seq<char>),
    Internal,
}

impl View for HttpAnswer {
    type V = HttpAnswerView;

    open spec fn view(&self) -> HttpAnswerView {
        match self {
            HttpAnswer::NotFound(m) => HttpAnswerView::NotFound(m@),
            HttpAnswer::BadRequest(m) => HttpAnswerView::BadRequest(m@),
            HttpAnswer::Internal => HttpAnswerView::Internal,
        }
    }
}

/// The answer to a request that failed with `e`: a missing service is not
/// found; a stopped service, a failed release, a lost image, invalid input,
/// an unresolvable environment, a Git error and a conflicting operation are
/// the client's to fix; anything else is an internal error.
pub open spec fn http_answer_spec(e: DockerError) -> HttpAnswerView {
    match e {
        DockerError::ServiceNotFound(m) => HttpAnswerView::NotFound(m@),
        DockerError::ServiceNotRunning(s) => HttpAnswerView::BadRequest("Service "@ + s@ + " is not running"@),
        DockerError::ReleaseFailed(c) => HttpAnswerView::BadRequest("Release command failed with exit code "@ + signed_decimal(c as int)),
        DockerError::ArtifactUnavailable(d) => HttpAnswerView::BadRequest("Deployment "@ + d@ + " no longer has a retained image"@),
        DockerError::Validation(m) => HttpAnswerView::BadRequest(m@),
        DockerError::EnvResolveFailed(m) => HttpAnswerView::BadRequest(m@),
        DockerError::Git(m) => HttpAnswerView::BadRequest(m@),
        DockerError::Operation(m) => HttpAnswerView::BadRequest(m@),
        _ => HttpAnswerView::Internal,
    }
}

/// The answer to a request that failed with `e`.
pub fn http_answer(e: &DockerError) -> (a: HttpAnswer)
    ensures
        a@ == http_answer_spec(*e),
{
    match e {
        DockerError::ServiceNotFound(m) => HttpAnswer::NotFound(m.clone()),
        DockerError::ServiceNotRunning(s) => HttpAnswer::BadRequest(quoted("Service ", s, " is not running")),
        DockerError::ReleaseFailed(c) => HttpAnswer::BadRequest(
            prefixed("Release command failed with exit code ", &signed_decimal_string(*c)),
        ),
        DockerError::ArtifactUnavailable(d) => HttpAnswer::BadRequest(quoted("Deployment ", d, " no longer has a retained image")),
        DockerError::Validation(m) => HttpAnswer::BadRequest(m.clone()),
        DockerError::EnvResolveFailed(m) => HttpAnswer::BadRequest(m.clone()),
        DockerError::Git(m) => HttpAnswer::BadRequest(m.clone()),
        DockerError::Operation(m) => HttpAnswer::BadRequest(m.clone()),
        _ => HttpAnswer::Internal,
    }
}

/// The outcome of a Docker call on a network: done, refused by the daemon
/// with a status, or failed otherwise (each failure with its message).
#[derive(Clone, Debug, PartialEq, Eq)]
pub enum CallOutcome {
    Done,
    ServerError(u16, String),
    Failed(String),
}

/// Creating or removing an application's network: a network the daemon
/// does not find (404) counts as done; any other failure is a client error.
pub fn network_call_result(outcome: CallOutcome) -> (r: Result<(), DockerError>)
    ensures
        match outcome {
            CallOutcome::Done => r is Ok,
            CallOutcome::ServerError(status, m) => if status == 404 {
                r is Ok
            } else {
                r == Err::<(), DockerError>(DockerError::DockerClient(m))
            },
            CallOutcome::Failed(m) => r == Err::<(), DockerError>(DockerError::DockerClient(m)),
        },
{
    match outcome {
        CallOutcome::Done => Ok(()),
        CallOutcome::ServerError(status, m) => if status == 404 {
            Ok(())
        } else {
            Err(DockerError::DockerClient(m))
        },
        CallOutcome::Failed(m) => Err(DockerError::DockerClient(m)),
    }
}

/// The driver of an application network.
pub fn network_driver() -> (r: String)
    ensures
        r@ == "bridge"@,
{
    lit("bridge")
}

/// How a container's logs are kept.
#[derive(Clone, Debug)]
pub struct LogConfig {
    pub typ: String,
    pub config: Vec<(String, String)>,
}

/// The log settings of every container: JSON files, rotated at ten
/// megabytes, three kept.
pub fn default_log_config() -> (c: LogConfig)
    ensures
        c.typ@ == "json-file"@,
        c.config@.len() == 2,
        c.config@[0].0@ == "max-size"@ && c.config@[0].1@ == "10m"@,
        c.config@[1].0@ == "max-file"@ && c.config@[1].1@ == "3"@,
{
    let mut config: Vec<(String, String)> = Vec::new();
    config.push((lit("max-size"), lit("10m")));
    config.push((lit("max-file"), lit("3")));
    LogConfig { typ: lit("json-file"), config }
}

} // verus!
