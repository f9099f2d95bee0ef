//! Laws of what is read of requests, sessions and events: each of their fields.
use vstd::prelude::*;

use crate::actor::{
    keys_view, optional_abandoned, optional_summary, Abandoned, EndPlan, OutcomeView, SessionActor,
    SummaryOutcome,
};
use crate::events::{
    Event, SessionEndRequest, SessionHeartbeatRequest, SessionKey, SessionStartRequest,
    SessionUpdateRequest, UsageView,
};
use crate::heartbeat::{optional_event, optional_session, refs_view, sessions_view};
use crate::json::{entries, json, list_json, optional_json, text_list, Json};
use crate::recorded::RecordedSummaries;
use crate::session::{ActiveSession, SummaryEvent};
use crate::text::{optional_str, optional_view, texts_view};
use crate::usage::{
    optional_cost, optional_cost_usage, optional_usages, usages_view, Cost, CostUsage, ModelUsage,
    TokenUsage,
};

verus! {

/// Whether the optional text is read as it is.
pub open spec fn reads_text(read: Option<Seq<char>>, text: Option<String>) -> bool {
    &&& read is Some <==> text is Some
    &&& text is Some ==> read->0 == (text->0)@
}

/// Whether the optional value is read as it is.
pub open spec fn reads_value(read: Option<Json>, value: Option<serde_json::Value>) -> bool {
    &&& read is Some <==> value is Some
    &&& value is Some ==> read->0 == json(value->0)
}

/// Whether the reported usage is read as it is.
pub open spec fn reads_usage(
    read: UsageView,
    tokens: Option<TokenUsage>,
    cost: Option<CostUsage>,
    model_usage: Option<Vec<ModelUsage>>,
) -> bool {
    &&& read.tokens == tokens
    &&& read.cost is Some <==> cost is Some
    &&& cost is Some ==> {
        &&& reads_text((read.cost->0).currency, (cost->0).currency)
        &&& (read.cost->0).total is Some <==> (cost->0).total is Some
        &&& (cost->0).total is Some ==> {
            &&& ((read.cost->0).total->0).bits == ((cost->0).total->0).bits
            &&& ((read.cost->0).total->0).number == json(((cost->0).total->0).number)
        }
    }
    &&& read.model_usage is Some <==> model_usage is Some
    &&& model_usage is Some ==> (read.model_usage->0).len() == (model_usage->0)@.len()
    &&& model_usage is Some ==> forall|i: int|
        0 <= i < (model_usage->0)@.len() ==> {
            let row = #[trigger] (read.model_usage->0)[i];
            let usage = (model_usage->0)@[i];
            &&& row.model == usage.model@
            &&& row.tokens == usage.tokens
            &&& row.cost.bits == usage.cost.bits
            &&& row.cost.number == json(usage.cost.number)
        }
}

/// Of a start every field is read.
pub proof fn a_start_is_read_field_by_field(req: SessionStartRequest)
    ensures
        req@.key.code_agent == req.code_agent@,
        req@.key.session_id == req.session_id@,
        reads_text(req@.key.session_instance_id, req.session_instance_id),
        req@.project_dir == req.project_dir@,
        reads_text(req@.model, req.model),
        req@.started_at == req.started_at,
        reads_value(req@.metadata, req.metadata),
{
}

/// Of an update every field is read.
pub proof fn an_update_is_read_field_by_field(req: SessionUpdateRequest)
    ensures
        req@.key.code_agent == req.code_agent@,
        req@.key.session_id == req.session_id@,
        reads_text(req@.key.session_instance_id, req.session_instance_id),
        reads_text(req@.model, req.model),
        reads_usage(req@.usage, req.tokens, req.cost, req.model_usage),
        req@.active == req.active,
        req@.active_at == req.active_at,
        reads_value(req@.metadata, req.metadata),
{
}

/// Of an end every field is read.
pub proof fn an_end_is_read_field_by_field(req: SessionEndRequest)
    ensures
        req@.key.code_agent == req.code_agent@,
        req@.key.session_id == req.session_id@,
        reads_text(req@.key.session_instance_id, req.session_instance_id),
        req@.ended_at == req.ended_at,
        reads_usage(req@.usage, req.tokens, req.cost, req.model_usage),
        reads_value(req@.metadata, req.metadata),
{
}

/// Of a heartbeat every field is read.
pub proof fn a_heartbeat_is_read_field_by_field(req: SessionHeartbeatRequest, key: SessionKey)
    ensures
        req@.key.code_agent == req.code_agent@,
        req@.key.session_id == req.session_id@,
        reads_text(req@.key.session_instance_id, req.session_instance_id),
        req@.heartbeat_at == req.heartbeat_at,
        key@.code_agent == key.code_agent@,
        key@.session_id == key.session_id@,
        reads_text(key@.session_instance_id, key.session_instance_id),
{
}

/// Of a session every field is read.
pub proof fn a_session_is_read_field_by_field(session: ActiveSession)
    ensures
        session@.key.code_agent == session.key.code_agent@,
        session@.key.session_id == session.key.session_id@,
        reads_text(session@.key.session_instance_id, session.key.session_instance_id),
        session@.project_dir == session.project_dir@,
        session@.project_name == session.project_name@,
        reads_text(session@.model, session.model),
        reads_usage(
            UsageView {
                tokens: Some(session@.tokens),
                cost: Some(session@.cost),
                model_usage: Some(session@.model_usage),
            },
            Some(session.tokens),
            Some(session.cost),
            Some(session.model_usage),
        ),
        session@.started_at == session.started_at,
        session@.first_active_at == session.first_active_at,
        session@.last_active_at == session.last_active_at,
        session@.active_started_at == session.active_started_at,
        session@.past_duration == session.past_duration,
        session@.abandoned_summary_failures == session.abandoned_summary_failures,
        reads_value(session@.metadata, session.metadata),
{
}

/// Of events, summaries and plans every field is read.
pub proof fn events_are_read_field_by_field(
    event: Event,
    summary: SummaryEvent,
    plan: EndPlan,
    abandoned: Option<Abandoned>,
)
    ensures
        event@.id == event.id,
        event@.timestamp == event.timestamp,
        event@.duration == event.duration,
        event@.data == entries(event.data),
        summary@.event == summary.event@,
        summary@.wall_duration == summary.wall_duration,
        plan@.heartbeat is Some <==> plan.heartbeat is Some,
        plan.heartbeat is Some ==> plan@.heartbeat->0 == (plan.heartbeat->0)@,
        plan@.summary is Some <==> plan.summary is Some,
        plan.summary is Some ==> plan@.summary->0 == (plan.summary->0)@,
        optional_abandoned(abandoned) is Some <==> abandoned is Some,
        abandoned is Some ==> optional_abandoned(abandoned)->0 == (
            (abandoned->0).session@,
            (abandoned->0).summary@,
        ),
{
}

/// Of the tracker all sessions are read, in order, and all recorded names.
pub proof fn a_tracker_is_read_session_by_session(
    tracker: SessionActor,
    recorded: RecordedSummaries,
    outcome: SummaryOutcome,
)
    ensures
        tracker@.event_bucket_id == tracker.event_bucket_id@,
        tracker@.sum_bucket_id == tracker.sum_bucket_id@,
        tracker@.sessions.len() == tracker.sessions@.len(),
        forall|i: int|
            0 <= i < tracker.sessions@.len() ==> #[trigger] tracker@.sessions[i]
                == tracker.sessions@[i]@,
        tracker@.recorded == tracker.recorded@,
        recorded@.len() == recorded.ids@.len(),
        forall|i: int|
            0 <= i < recorded.ids@.len() ==> #[trigger] recorded@[i] == recorded.ids@[i]@,
        outcome is AlreadyRecorded <==> outcome@ is AlreadyRecorded,
        outcome is Recorded <==> outcome@ is Recorded,
        outcome is Failed <==> outcome@ is Failed,
        outcome is Recorded ==> outcome@ == OutcomeView::Recorded((outcome->Recorded_0)@),
        outcome is Failed ==> outcome@ == OutcomeView::Failed((outcome->Failed_0)@),
{
}

/// Lists and optional values are read item by item.
pub proof fn lists_are_read_item_by_item(
    texts: Seq<String>,
    values: Seq<serde_json::Value>,
    keys: Seq<SessionKey>,
    sessions: Seq<ActiveSession>,
    refs: Seq<&ActiveSession>,
    list: Seq<Seq<char>>,
    i: int,
)
    ensures
        texts_view(texts).len() == texts.len(),
        0 <= i < texts.len() ==> texts_view(texts)[i] == texts[i]@,
        list_json(values).len() == values.len(),
        0 <= i < values.len() ==> list_json(values)[i] == json(values[i]),
        keys_view(keys).len() == keys.len(),
        0 <= i < keys.len() ==> keys_view(keys)[i] == keys[i]@,
        sessions_view(sessions).len() == sessions.len(),
        0 <= i < sessions.len() ==> sessions_view(sessions)[i] == sessions[i]@,
        refs_view(refs).len() == refs.len(),
        0 <= i < refs.len() ==> refs_view(refs)[i] == refs[i]@,
        text_list(list) is List && text_list(list)->List_0.len() == list.len(),
        0 <= i < list.len() ==> text_list(list)->List_0[i] == Json::Text(list[i]),
{
}

/// What is there is read, and what is not is not.
pub proof fn optional_values_are_read_as_they_are(
    text: Option<String>,
    part: Option<&str>,
    value: Option<serde_json::Value>,
    event: Option<Event>,
    summary: Option<SummaryEvent>,
    session: Option<&ActiveSession>,
    cost: Option<Cost>,
    cost_usage: Option<CostUsage>,
    usages: Option<Vec<ModelUsage>>,
)
    ensures
        reads_text(optional_view(text), text),
        optional_str(part) is Some <==> part is Some,
        part is Some ==> optional_str(part)->0 == (part->0)@,
        reads_value(optional_json(value), value),
        optional_event(event) is Some <==> event is Some,
        event is Some ==> optional_event(event)->0 == (event->0)@,
        optional_summary(summary) is Some <==> summary is Some,
        summary is Some ==> optional_summary(summary)->0 == (summary->0)@,
        optional_session(session) is Some <==> session is Some,
        session is Some ==> optional_session(session)->0 == (session->0)@,
        optional_cost(cost) is Some <==> cost is Some,
        cost is Some ==> optional_cost(cost)->0 == (cost->0)@,
        reads_usage(
            UsageView {
                tokens: None,
                cost: optional_cost_usage(cost_usage),
                model_usage: optional_usages(usages),
            },
            None,
            cost_usage,
            usages,
        ),
        usages is Some ==> optional_usages(usages)->0 == usages_view((usages->0)@),
{
}

} // verus!
