//! What agents report of their sessions, and the events that are recorded.
//!
//! One run of a session is told from all others by its agent, its session and
//! its instance. Live activity goes to one bucket, and the summary of a run
//! that ended or timed out to another.
use vstd::prelude::*;

use crate::json::{copy_optional_value, entries, optional_json, Json};
use crate::text::optional_view;
use crate::time::{TimeDelta, Timestamp};
use crate::usage::{
    copy_optional_cost_usage, copy_optional_usages, optional_cost_usage, optional_usages,
    CostUsage, CostUsageView, ModelUsage, ModelUsageView, TokenUsage,
};

verus! {

/// What tells a session from all others. Different agents may use the same
/// session id, and a session that is resumed runs as a new instance; clients
/// that know no instances report none.
#[derive(Debug, PartialEq, Eq, Hash)]
pub struct SessionKey {
    pub code_agent: String,
    pub session_id: String,
    pub session_instance_id: Option<String>,
}

/// What a [`SessionKey`] holds.
pub struct KeyView {
    pub code_agent: Seq<char>,
    pub session_id: Seq<char>,
    pub session_instance_id: Option<Seq<char>>,
}

impl View for SessionKey {
    type V = KeyView;

    open spec fn view(&self) -> KeyView {
        key_view(self.code_agent, self.session_id, self.session_instance_id)
    }
}

/// What the key of these three parts holds.
pub open spec fn key_view(
    code_agent: String,
    session_id: String,
    session_instance_id: Option<String>,
) -> KeyView {
    KeyView {
        code_agent: code_agent@,
        session_id: session_id@,
        session_instance_id: optional_view(session_instance_id),
    }
}

/// Whether both texts are absent, or both are there and the same.
pub fn same_text(a: &Option<String>, b: &Option<String>) -> (same: bool)
    ensures
        same == (optional_view(*a) == optional_view(*b)),
{
    match (a, b) {
        (Some(a), Some(b)) => *a == *b,
        (None, None) => true,
        _ => false,
    }
}

impl SessionKey {
    /// The key of these three parts.
    pub fn new(
        code_agent: String,
        session_id: String,
        session_instance_id: Option<String>,
    ) -> (key: SessionKey)
        ensures
            key@ == key_view(code_agent, session_id, session_instance_id),
    {
        SessionKey { code_agent, session_id, session_instance_id }
    }

    /// Whether both keys are of the same run.
    pub fn same(&self, other: &SessionKey) -> (same: bool)
        ensures
            same == (self@ == other@),
    {
        self.code_agent == other.code_agent && self.session_id == other.session_id && same_text(
            &self.session_instance_id,
            &other.session_instance_id,
        )
    }
}

impl Clone for SessionKey {
    fn clone(&self) -> (copy: SessionKey)
        ensures
            copy@ == self@,
    {
        SessionKey::new(
            self.code_agent.clone(),
            self.session_id.clone(),
            self.session_instance_id.clone(),
        )
    }
}

/// Whether the instant, if it is there, is one.
pub open spec fn optional_wf(at: Option<Timestamp>) -> bool {
    at is Some ==> (at->0).wf()
}

/// A session starts.
#[derive(Debug)]
pub struct SessionStartRequest {
    pub session_id: String,
    pub session_instance_id: Option<String>,
    pub code_agent: String,
    pub project_dir: String,
    pub model: Option<String>,
    pub started_at: Option<Timestamp>,
    pub metadata: Option<serde_json::Value>,
}

/// What a [`SessionStartRequest`] holds.
pub struct StartView {
    pub key: KeyView,
    pub project_dir: Seq<char>,
    pub model: Option<Seq<char>>,
    pub started_at: Option<Timestamp>,
    pub metadata: Option<Json>,
}

impl View for SessionStartRequest {
    type V = StartView;

    open spec fn view(&self) -> StartView {
        StartView {
            key: key_view(self.code_agent, self.session_id, self.session_instance_id),
            project_dir: self.project_dir@,
            model: optional_view(self.model),
            started_at: self.started_at,
            metadata: optional_json(self.metadata),
        }
    }
}

impl SessionStartRequest {
    /// Whether the reported instants are instants.
    pub open spec fn wf(&self) -> bool {
        optional_wf(self.started_at)
    }

    /// The key of the session.
    pub fn key(&self) -> (key: SessionKey)
        ensures
            key@ == self@.key,
    {
        SessionKey::new(
            self.code_agent.clone(),
            self.session_id.clone(),
            self.session_instance_id.clone(),
        )
    }
}

impl Clone for SessionStartRequest {
    fn clone(&self) -> (copy: SessionStartRequest)
        ensures
            copy@ == self@,
    {
        SessionStartRequest {
            session_id: self.session_id.clone(),
            session_instance_id: self.session_instance_id.clone(),
            code_agent: self.code_agent.clone(),
            project_dir: self.project_dir.clone(),
            model: self.model.clone(),
            started_at: self.started_at,
            metadata: copy_optional_value(&self.metadata),
        }
    }
}

/// A session reports its usage so far, and whether it is active.
#[derive(Debug)]
pub struct SessionUpdateRequest {
    pub session_id: String,
    pub session_instance_id: Option<String>,
    pub code_agent: String,
    pub model: Option<String>,
    pub tokens: Option<TokenUsage>,
    pub cost: Option<CostUsage>,
    pub model_usage: Option<Vec<ModelUsage>>,
    /// `Some(false)` ends the current period of activity at `active_at`.
    pub active: Option<bool>,
    pub active_at: Option<Timestamp>,
    pub metadata: Option<serde_json::Value>,
}

/// What a [`SessionUpdateRequest`] holds.
pub struct UpdateView {
    pub key: KeyView,
    pub model: Option<Seq<char>>,
    pub usage: UsageView,
    pub active: Option<bool>,
    pub active_at: Option<Timestamp>,
    pub metadata: Option<Json>,
}

/// The usage that a request reports.
pub struct UsageView {
    pub tokens: Option<TokenUsage>,
    pub cost: Option<CostUsageView>,
    pub model_usage: Option<Seq<ModelUsageView>>,
}

impl View for SessionUpdateRequest {
    type V = UpdateView;

    open spec fn view(&self) -> UpdateView {
        UpdateView {
            key: key_view(self.code_agent, self.session_id, self.session_instance_id),
            model: optional_view(self.model),
            usage: UsageView {
                tokens: self.tokens,
                cost: optional_cost_usage(self.cost),
                model_usage: optional_usages(self.model_usage),
            },
            active: self.active,
            active_at: self.active_at,
            metadata: optional_json(self.metadata),
        }
    }
}

impl SessionUpdateRequest {
    /// Whether the reported instants are instants.
    pub open spec fn wf(&self) -> bool {
        optional_wf(self.active_at)
    }

    /// The key of the session.
    pub fn key(&self) -> (key: SessionKey)
        ensures
            key@ == self@.key,
    {
        SessionKey::new(
            self.code_agent.clone(),
            self.session_id.clone(),
            self.session_instance_id.clone(),
        )
    }
}

impl Clone for SessionUpdateRequest {
    fn clone(&self) -> (copy: SessionUpdateRequest)
        ensures
            copy@ == self@,
    {
        SessionUpdateRequest {
            session_id: self.session_id.clone(),
            session_instance_id: self.session_instance_id.clone(),
            code_agent: self.code_agent.clone(),
            model: self.model.clone(),
            tokens: self.tokens,
            cost: copy_optional_cost_usage(&self.cost),
            model_usage: copy_optional_usages(&self.model_usage),
            active: self.active,
            active_at: self.active_at,
            metadata: copy_optional_value(&self.metadata),
        }
    }
}

/// A session ends. The usage is that of the whole session.
#[derive(Debug)]
pub struct SessionEndRequest {
    pub session_id: String,
    pub session_instance_id: Option<String>,
    pub code_agent: String,
    pub ended_at: Option<Timestamp>,
    pub tokens: Option<TokenUsage>,
    pub cost: Option<CostUsage>,
    pub model_usage: Option<Vec<ModelUsage>>,
    pub metadata: Option<serde_json::Value>,
}

/// What a [`SessionEndRequest`] holds.
pub struct EndView {
    pub key: KeyView,
    pub ended_at: Option<Timestamp>,
    pub usage: UsageView,
    pub metadata: Option<Json>,
}

impl View for SessionEndRequest {
    type V = EndView;

    open spec fn view(&self) -> EndView {
        EndView {
            key: key_view(self.code_agent, self.session_id, self.session_instance_id),
            ended_at: self.ended_at,
            usage: UsageView {
                tokens: self.tokens,
                cost: optional_cost_usage(self.cost),
                model_usage: optional_usages(self.model_usage),
            },
            metadata: optional_json(self.metadata),
        }
    }
}

impl SessionEndRequest {
    /// Whether the reported instants are instants.
    pub open spec fn wf(&self) -> bool {
        optional_wf(self.ended_at)
    }

    /// The key of the session.
    pub fn key(&self) -> (key: SessionKey)
        ensures
            key@ == self@.key,
    {
        SessionKey::new(
            self.code_agent.clone(),
            self.session_id.clone(),
            self.session_instance_id.clone(),
        )
    }
}

impl Clone for SessionEndRequest {
    fn clone(&self) -> (copy: SessionEndRequest)
        ensures
            copy@ == self@,
    {
        SessionEndRequest {
            session_id: self.session_id.clone(),
            session_instance_id: self.session_instance_id.clone(),
            code_agent: self.code_agent.clone(),
            ended_at: self.ended_at,
            tokens: self.tokens,
            cost: copy_optional_cost_usage(&self.cost),
            model_usage: copy_optional_usages(&self.model_usage),
            metadata: copy_optional_value(&self.metadata),
        }
    }
}

/// A session is still active.
#[derive(Debug)]
pub struct SessionHeartbeatRequest {
    pub session_id: String,
    pub session_instance_id: Option<String>,
    pub code_agent: String,
    /// When the agent took the sample; clients that do not say are taken to
    /// have sampled when the request came in.
    pub heartbeat_at: Option<Timestamp>,
}

/// What a [`SessionHeartbeatRequest`] holds.
pub struct HeartbeatView {
    pub key: KeyView,
    pub heartbeat_at: Option<Timestamp>,
}

impl View for SessionHeartbeatRequest {
    type V = HeartbeatView;

    open spec fn view(&self) -> HeartbeatView {
        HeartbeatView {
            key: key_view(self.code_agent, self.session_id, self.session_instance_id),
            heartbeat_at: self.heartbeat_at,
        }
    }
}

impl SessionHeartbeatRequest {
    /// Whether the reported instants are instants.
    pub open spec fn wf(&self) -> bool {
        optional_wf(self.heartbeat_at)
    }

    /// The key of the session.
    pub fn key(&self) -> (key: SessionKey)
        ensures
            key@ == self@.key,
    {
        SessionKey::new(
            self.code_agent.clone(),
            self.session_id.clone(),
            self.session_instance_id.clone(),
        )
    }
}

impl Clone for SessionHeartbeatRequest {
    fn clone(&self) -> (copy: SessionHeartbeatRequest)
        ensures
            copy@ == self@,
    {
        SessionHeartbeatRequest {
            session_id: self.session_id.clone(),
            session_instance_id: self.session_instance_id.clone(),
            code_agent: self.code_agent.clone(),
            heartbeat_at: self.heartbeat_at,
        }
    }
}

/// An event of a bucket.
#[derive(Debug)]
pub struct Event {
    /// Given out by the server once the event is stored.
    pub id: Option<i64>,
    pub timestamp: Timestamp,
    pub duration: TimeDelta,
    pub data: serde_json::Map<String, serde_json::Value>,
}

/// What an [`Event`] holds.
pub struct EventView {
    pub id: Option<i64>,
    pub timestamp: Timestamp,
    pub duration: TimeDelta,
    pub data: Map<Seq<char>, Json>,
}

impl View for Event {
    type V = EventView;

    open spec fn view(&self) -> EventView {
        EventView {
            id: self.id,
            timestamp: self.timestamp,
            duration: self.duration,
            data: entries(self.data),
        }
    }
}

} // verus!
