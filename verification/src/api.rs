//! Replies to requests.
use vstd::prelude::*;
use vstd::string::StringExecFns;

use crate::events::{KeyView, SessionKey};

verus! {

/// Why a request is refused.
#[derive(Clone, Copy, PartialEq, Eq, Structural, Debug)]
pub enum ApiStatus {
    NotFound,
    BadGateway,
    ServiceUnavailable,
}

impl ApiStatus {
    /// The HTTP status code.
    pub open spec fn http_code(self) -> u16 {
        match self {
            ApiStatus::NotFound => 404,
            ApiStatus::BadGateway => 502,
            ApiStatus::ServiceUnavailable => 503,
        }
    }

    /// The HTTP status code.
    pub fn code(self) -> (code: u16)
        ensures
            code == self.http_code(),
            self == ApiStatus::NotFound ==> code == 404,
            self == ApiStatus::BadGateway ==> code == 502,
            self == ApiStatus::ServiceUnavailable ==> code == 503,
    {
        match self {
            ApiStatus::NotFound => 404,
            ApiStatus::BadGateway => 502,
            ApiStatus::ServiceUnavailable => 503,
        }
    }
}

/// The request was taken.
#[derive(Debug)]
pub struct SessionResponse {
    pub ok: bool,
    pub session_id: String,
}

impl SessionResponse {
    /// The reply to a request that was taken.
    pub fn ok(session_id: String) -> (response: SessionResponse)
        ensures
            response.ok,
            response.session_id == session_id,
    {
        SessionResponse { ok: true, session_id }
    }
}

/// The request was refused.
#[derive(Debug)]
pub struct CommandError {
    pub status: ApiStatus,
    pub error: String,
}

/// The body of a refusal.
#[derive(Debug)]
pub struct ErrorResponse {
    pub ok: bool,
    pub error: String,
}

/// The reply to a request that was refused.
pub fn api_error(status: ApiStatus, error: String) -> (reply: (u16, ErrorResponse))
    ensures
        reply.0 == status.http_code(),
        reply.0 == 404 <==> status == ApiStatus::NotFound,
        reply.0 == 502 <==> status == ApiStatus::BadGateway,
        reply.0 == 503 <==> status == ApiStatus::ServiceUnavailable,
        !reply.1.ok,
        reply.1.error == error,
{
    (status.code(), ErrorResponse { ok: false, error })
}

/// The refusal of a request that could not be handed on.
pub fn actor_unavailable() -> (error: CommandError)
    ensures
        error.status == ApiStatus::ServiceUnavailable,
        error.error@ == "session actor unavailable"@,
{
    CommandError {
        status: ApiStatus::ServiceUnavailable,
        error: "session actor unavailable".to_string(),
    }
}

/// What says that no such session is known.
pub open spec fn unknown_session_text(key: KeyView) -> Seq<char> {
    "unknown session: "@ + key.code_agent + "/"@ + key.session_id
}

/// The refusal of a request for a session that is not known.
pub fn unknown_session(key: &SessionKey) -> (error: CommandError)
    ensures
        error.status == ApiStatus::NotFound,
        error.error@ == unknown_session_text(key@),
        error.error@ == "unknown session: "@ + key.code_agent@ + "/"@ + key.session_id@,
{
    let mut error = "unknown session: ".to_string();
    error.append(key.code_agent.as_str());
    error.append("/");
    error.append(key.session_id.as_str());
    CommandError { status: ApiStatus::NotFound, error }
}

/// What says that the summary could not be recorded.
pub open spec fn summary_failed_text(cause: Seq<char>) -> Seq<char> {
    "failed to write summary ActivityWatch event: "@ + cause
}

/// The refusal of an end whose summary could not be recorded.
pub fn summary_failed(cause: &str) -> (error: CommandError)
    ensures
        error.status == ApiStatus::BadGateway,
        error.error@ == summary_failed_text(cause@),
        error.error@ == "failed to write summary ActivityWatch event: "@ + cause@,
{
    let mut error = "failed to write summary ActivityWatch event: ".to_string();
    error.append(cause);
    CommandError { status: ApiStatus::BadGateway, error }
}

/// The reply to a session's end: that of the actor, or a refusal where the
/// actor stopped before it replied.
pub fn end_reply(reply: Option<Result<SessionResponse, CommandError>>) -> (result: Result<
    SessionResponse,
    CommandError,
>)
    ensures
        reply is Some ==> result == reply->0,
        reply is None ==> {
            &&& result is Err
            &&& (result->Err_0).status == ApiStatus::ServiceUnavailable
            &&& (result->Err_0).error@
                == "session actor stopped before completing end request"@
        },
{
    match reply {
        Some(result) => result,
        None => Err(
            CommandError {
                status: ApiStatus::ServiceUnavailable,
                error: "session actor stopped before completing end request".to_string(),
            },
        ),
    }
}

/// How the service is doing.
#[derive(Debug)]
pub struct HealthResponse {
    pub ok: bool,
    pub service: String,
    pub event_bucket_id: String,
    pub sum_bucket_id: String,
    pub active_sessions: usize,
}

/// How the service is doing. Where the actor gave no count in time, or gave
/// none at all, no session is counted.
pub fn health(
    event_bucket_id: String,
    sum_bucket_id: String,
    session_count: Option<usize>,
) -> (response: HealthResponse)
    ensures
        response.ok,
        response.service@ == "aw-watcher-agent"@,
        response.event_bucket_id == event_bucket_id,
        response.sum_bucket_id == sum_bucket_id,
        session_count is Some ==> response.active_sessions == session_count->0,
        session_count is None ==> response.active_sessions == 0,
{
    HealthResponse {
        ok: true,
        service: "aw-watcher-agent".to_string(),
        event_bucket_id,
        sum_bucket_id,
        active_sessions: session_count.unwrap_or(0),
    }
}

/// How the task that tracks the sessions came to its end.
#[derive(Clone, Copy, PartialEq, Eq, Structural, Debug)]
pub enum ActorExit {
    Finished,
    Panicked,
    Failed,
}

/// What says that the task that tracks the sessions ended too early.
pub open spec fn early_stop_text(exit: ActorExit, cause: Seq<char>) -> Seq<char> {
    match exit {
        ActorExit::Finished => "session actor stopped unexpectedly"@,
        ActorExit::Panicked => "session actor panicked: "@ + cause,
        ActorExit::Failed => "session actor task failed: "@ + cause,
    }
}

/// What says that the task that tracks the sessions ended too early.
pub fn actor_early_stop_error(exit: ActorExit, cause: &str) -> (error: String)
    ensures
        error@ == early_stop_text(exit, cause@),
        exit == ActorExit::Finished ==> error@ == "session actor stopped unexpectedly"@,
        exit == ActorExit::Panicked ==> error@ == "session actor panicked: "@ + cause@,
        exit == ActorExit::Failed ==> error@ == "session actor task failed: "@ + cause@,
{
    match exit {
        ActorExit::Finished => "session actor stopped unexpectedly".to_string(),
        ActorExit::Panicked => "session actor panicked: ".to_string().concat(cause),
        ActorExit::Failed => "session actor task failed: ".to_string().concat(cause),
    }
}

} // verus!
