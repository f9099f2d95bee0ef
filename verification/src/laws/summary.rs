//! Laws of summaries.
use vstd::prelude::*;

use crate::actor::{abandoned_summary, event_summary_id, ActorView, OutcomeView};
use crate::json::{optional_text, optional_unsigned, Json};
use crate::laws::counts::the_total_counts_every_token;
use crate::laws::fields::{
    field, fingerprint, has_count, has_instant, has_optional_text, has_text, has_value, is_total, tells_tokens,
};
use crate::recorded::{recorded_wf, remembered, EMITTED_SUMMARY_ID_LIMIT};
use crate::session::{
    cost_json, instant_json, model_entries, optional_instant, usage_by_model, with_tokens, SessionView,
    SummaryView,
};
use crate::time::{rfc3339_text, Timestamp};
use crate::usage::{distinct_models, ModelUsageView, TokenUsage};

verus! {

/// The usage by model, as a field; there is none as long as none is known.
pub open spec fn usage_field(table: Seq<ModelUsageView>) -> Option<Json> {
    if table.len() > 0 {
        Some(Json::Object(usage_by_model(table)))
    } else {
        None
    }
}

/// Whether the name is that of a field that says what the session is, how it
/// ended, or when.
pub open spec fn is_identity_field(name: Seq<char>) -> bool {
    ||| name == "project"@
    ||| name == "file"@
    ||| name == "language"@
    ||| name == "status"@
    ||| name == "reason"@
    ||| name == "summary_id"@
    ||| name == "session_id"@
    ||| name == "session_instance_id"@
    ||| name == "code_agent"@
    ||| name == "project_dir"@
    ||| name == "started_at"@
    ||| name == "ended_at"@
    ||| name == "first_active_at"@
    ||| name == "last_active_at"@
}

/// Whether the name is that of a field that says what the session used.
pub open spec fn is_usage_field(name: Seq<char>) -> bool {
    ||| name == "tokens_input"@
    ||| name == "tokens_output"@
    ||| name == "tokens_cache_read"@
    ||| name == "tokens_cache_write"@
    ||| name == "tokens_total"@
    ||| name == "cost_total"@
    ||| name == "cost_currency"@
    ||| name == "metadata"@
    ||| name == "selected_model"@
    ||| name == "model"@
    ||| name == "model_usage"@
}

proof fn lemma_usage_leaves_the_rest_alone(
    session: SessionView,
    data: Map<Seq<char>, Json>,
    name: Seq<char>,
)
    requires
        !is_usage_field(name),
    ensures
        field(session.with_usage_data(data), name) == field(data, name),
{
}

/// A summary says what the session is, how it ended, and when.
pub proof fn a_summary_tells_what_the_session_is(
    session: SessionView,
    status: Seq<char>,
    ended_at: Timestamp,
    reason: Option<Seq<char>>,
)
    ensures
        ({
            let data = session.summary_data(status, ended_at, reason);
            &&& field(data, "project"@) == Some(Json::Text(session.project_name))
            &&& field(data, "file"@) == Some(Json::Text(session.project_dir))
            &&& field(data, "project_dir"@) == Some(Json::Text(session.project_dir))
            &&& field(data, "language"@) == Some(Json::Text("code-agent"@))
            &&& field(data, "status"@) == Some(Json::Text(status))
            &&& field(data, "reason"@) == optional_text(reason)
            &&& field(data, "summary_id"@) == Some(
                Json::Text(session.summary_id(status, ended_at, reason)),
            )
            &&& field(data, "code_agent"@) == Some(Json::Text(session.key.code_agent))
            &&& field(data, "session_id"@) == Some(Json::Text(session.key.session_id))
            &&& field(data, "session_instance_id"@) == optional_text(
                session.key.session_instance_id,
            )
            &&& field(data, "started_at"@) == Some(instant_json(session.started_at))
            &&& field(data, "ended_at"@) == Some(instant_json(ended_at))
            &&& field(data, "first_active_at"@) == optional_instant(session.first_active_at)
            &&& field(data, "last_active_at"@) == optional_instant(session.last_active_at)
        }),
{
    let data = session.identity_data(status, ended_at, reason);
    lemma_names_differ();
    lemma_usage_leaves_the_rest_alone(session, data, "project"@);
    lemma_usage_leaves_the_rest_alone(session, data, "file"@);
    lemma_usage_leaves_the_rest_alone(session, data, "language"@);
    lemma_usage_leaves_the_rest_alone(session, data, "status"@);
    lemma_usage_leaves_the_rest_alone(session, data, "reason"@);
    lemma_usage_leaves_the_rest_alone(session, data, "summary_id"@);
    lemma_usage_leaves_the_rest_alone(session, data, "session_id"@);
    lemma_usage_leaves_the_rest_alone(session, data, "session_instance_id"@);
    lemma_usage_leaves_the_rest_alone(session, data, "code_agent"@);
    lemma_usage_leaves_the_rest_alone(session, data, "project_dir"@);
    lemma_usage_leaves_the_rest_alone(session, data, "started_at"@);
    lemma_usage_leaves_the_rest_alone(session, data, "ended_at"@);
    lemma_usage_leaves_the_rest_alone(session, data, "first_active_at"@);
    lemma_usage_leaves_the_rest_alone(session, data, "last_active_at"@);
}

/// A summary says what the session used, in all and by model, and which model
/// was selected.
pub proof fn a_summary_tells_what_the_session_used(
    session: SessionView,
    status: Seq<char>,
    ended_at: Timestamp,
    reason: Option<Seq<char>>,
)
    ensures
        ({
            let data = session.summary_data(status, ended_at, reason);
            &&& field(data, "tokens_input"@) == optional_unsigned(session.tokens.input)
            &&& field(data, "tokens_output"@) == optional_unsigned(session.tokens.output)
            &&& field(data, "tokens_cache_read"@) == optional_unsigned(session.tokens.cache_read)
            &&& field(data, "tokens_cache_write"@) == optional_unsigned(session.tokens.cache_write)
            &&& field(data, "tokens_total"@) == optional_unsigned(session.tokens.effective_total())
            &&& field(data, "cost_total"@) == cost_json(session.cost.total)
            &&& field(data, "cost_currency"@) == optional_text(session.cost.currency)
            &&& field(data, "metadata"@) == session.metadata
            &&& field(data, "selected_model"@) == optional_text(session.model)
            &&& field(data, "model"@) == optional_text(session.summary_model())
            &&& field(data, "model_usage"@) == usage_field(session.model_usage)
        }),
{
    lemma_names_differ();
}

/// No two fields have the same name.
proof fn lemma_names_differ()
    ensures
        fingerprint("project"@) == (7nat, 'p', 'r', 'o', 't'),
        fingerprint("file"@) == (4nat, 'f', 'i', 'l', 'e'),
        fingerprint("language"@) == (8nat, 'l', 'a', 'n', 'e'),
        fingerprint("status"@) == (6nat, 's', 't', 'a', 's'),
        fingerprint("reason"@) == (6nat, 'r', 'e', 'a', 'n'),
        fingerprint("summary_id"@) == (10nat, 's', 'u', 'm', 'd'),
        fingerprint("session_id"@) == (10nat, 's', 'e', 's', 'd'),
        fingerprint("session_instance_id"@) == (19nat, 's', 'e', 's', 'd'),
        fingerprint("code_agent"@) == (10nat, 'c', 'o', 'd', 't'),
        fingerprint("project_dir"@) == (11nat, 'p', 'r', 'o', 'r'),
        fingerprint("started_at"@) == (10nat, 's', 't', 'a', 't'),
        fingerprint("ended_at"@) == (8nat, 'e', 'n', 'd', 't'),
        fingerprint("first_active_at"@) == (15nat, 'f', 'i', 'r', 't'),
        fingerprint("last_active_at"@) == (14nat, 'l', 'a', 's', 't'),
        fingerprint("tokens_input"@) == (12nat, 't', 'o', 'k', 't'),
        fingerprint("tokens_output"@) == (13nat, 't', 'o', 'k', 't'),
        fingerprint("tokens_cache_read"@) == (17nat, 't', 'o', 'k', 'd'),
        fingerprint("tokens_cache_write"@) == (18nat, 't', 'o', 'k', 'e'),
        fingerprint("tokens_total"@) == (12nat, 't', 'o', 'k', 'l'),
        fingerprint("cost_total"@) == (10nat, 'c', 'o', 's', 'l'),
        fingerprint("cost_currency"@) == (13nat, 'c', 'o', 's', 'y'),
        fingerprint("metadata"@) == (8nat, 'm', 'e', 't', 'a'),
        fingerprint("selected_model"@) == (14nat, 's', 'e', 'l', 'l'),
        fingerprint("model"@) == (5nat, 'm', 'o', 'd', 'l'),
        fingerprint("model_usage"@) == (11nat, 'm', 'o', 'd', 'e'),
        fingerprint("active_duration_seconds"@) == (23nat, 'a', 'c', 't', 's'),
        fingerprint("wall_duration_seconds"@) == (21nat, 'w', 'a', 'l', 's'),
{
    reveal_strlit("project");
    reveal_strlit("file");
    reveal_strlit("language");
    reveal_strlit("status");
    reveal_strlit("reason");
    reveal_strlit("summary_id");
    reveal_strlit("session_id");
    reveal_strlit("session_instance_id");
    reveal_strlit("code_agent");
    reveal_strlit("project_dir");
    reveal_strlit("started_at");
    reveal_strlit("ended_at");
    reveal_strlit("first_active_at");
    reveal_strlit("last_active_at");
    reveal_strlit("tokens_input");
    reveal_strlit("tokens_output");
    reveal_strlit("tokens_cache_read");
    reveal_strlit("tokens_cache_write");
    reveal_strlit("tokens_total");
    reveal_strlit("cost_total");
    reveal_strlit("cost_currency");
    reveal_strlit("metadata");
    reveal_strlit("selected_model");
    reveal_strlit("model");
    reveal_strlit("model_usage");
    reveal_strlit("active_duration_seconds");
    reveal_strlit("wall_duration_seconds");
}

/// A summary has no other fields than these, and the lengths of time.
pub proof fn a_summary_tells_nothing_else(
    session: SessionView,
    status: Seq<char>,
    ended_at: Timestamp,
    reason: Option<Seq<char>>,
    active_seconds: Json,
    wall_seconds: Json,
    name: Seq<char>,
)
    requires
        session.summary(status, ended_at, reason).with_seconds(
            active_seconds,
            wall_seconds,
        ).data.contains_key(name),
    ensures
        is_identity_field(name) || is_usage_field(name) || name == "active_duration_seconds"@
            || name == "wall_duration_seconds"@,
{
    if !is_usage_field(name) {
        lemma_usage_leaves_the_rest_alone(
            session,
            session.identity_data(status, ended_at, reason),
            name,
        );
    }
}

/// Every summary has a name, and the lengths of time that are added to it
/// before it is recorded are found in it and change nothing else.
pub proof fn every_summary_has_a_name(
    session: SessionView,
    status: Seq<char>,
    ended_at: Timestamp,
    reason: Option<Seq<char>>,
    active_seconds: Json,
    wall_seconds: Json,
    name: Seq<char>,
)
    ensures
        ({
            let summary = session.summary(status, ended_at, reason);
            let event = summary.with_seconds(active_seconds, wall_seconds);
            &&& event_summary_id(summary.event) == Some(
                session.summary_id(status, ended_at, reason),
            )
            &&& event_summary_id(event) == event_summary_id(summary.event)
            &&& field(event.data, "active_duration_seconds"@) == Some(active_seconds)
            &&& field(event.data, "wall_duration_seconds"@) == Some(wall_seconds)
            &&& (name != "active_duration_seconds"@ && name != "wall_duration_seconds"@) ==> field(
                event.data,
                name,
            ) == field(summary.event.data, name)
        }),
{
    lemma_names_differ();
    let data = session.identity_data(status, ended_at, reason);
    lemma_usage_leaves_the_rest_alone(session, data, "summary_id"@);
    assert(field(data, "summary_id"@) == Some(
        Json::Text(session.summary_id(status, ended_at, reason)),
    ));
}

/// A summary of an abandoned session says so and why, and keeps the usage that
/// was reported last and the activity up to the last sign.
pub proof fn abandoned_summaries_keep_what_is_known(session: SessionView, reason: Seq<char>)
    requires
        session.wf(),
        session.ever_active(),
    ensures
        ({
            let event = abandoned_summary(session, reason).event;
            &&& event.timestamp == session.first_active_at->0
            &&& event.duration.nanos == session.active_nanos()
            &&& field(event.data, "status"@) == Some(Json::Text("abandoned"@))
            &&& field(event.data, "reason"@) == Some(Json::Text(reason))
            &&& field(event.data, "ended_at"@) == optional_instant(session.last_active_at)
            &&& field(event.data, "tokens_total"@) == optional_unsigned(
                session.tokens.effective_total(),
            )
            &&& field(event.data, "cost_total"@) == cost_json(session.cost.total)
            &&& field(event.data, "model_usage"@) == usage_field(session.model_usage)
        }),
{
    let finished = session.finished();
    let ended_at = session.last_active_at->0;
    a_summary_tells_what_the_session_is(finished, "abandoned"@, ended_at, Some(reason));
    a_summary_tells_what_the_session_used(finished, "abandoned"@, ended_at, Some(reason));
    crate::laws::activity::finishing_keeps_active_time(session);
}

/// A summary names the model that was used, whichever one is selected, and
/// `multiple` where several were.
pub proof fn the_model_is_the_one_that_was_used(
    session: SessionView,
    status: Seq<char>,
    ended_at: Timestamp,
    reason: Option<Seq<char>>,
)
    ensures
        ({
            let data = session.summary_data(status, ended_at, reason);
            &&& session.model_usage.len() == 1 ==> field(data, "model"@) == Some(
                Json::Text(session.model_usage[0].model),
            )
            &&& session.model_usage.len() > 1 ==> field(data, "model"@) == Some(
                Json::Text("multiple"@),
            )
            &&& session.model_usage.len() == 0 ==> field(data, "model"@) == field(
                data,
                "selected_model"@,
            )
        }),
{
    a_summary_tells_what_the_session_used(session, status, ended_at, reason);
}

/// The usage by model has the usage of each model under its name, and nothing
/// else.
pub proof fn usage_by_model_has_each_model_once(table: Seq<ModelUsageView>, model: Seq<char>)
    requires
        distinct_models(table),
    ensures
        forall|i: int|
            0 <= i < table.len() && (#[trigger] table[i]).model == model ==> field(
                usage_by_model(table),
                model,
            ) == Some(Json::Object(model_entries(table[i]))),
        (forall|i: int| 0 <= i < table.len() ==> (#[trigger] table[i]).model != model) ==> field(
            usage_by_model(table),
            model,
        ) is None,
    decreases table.len(),
{
    if table.len() > 0 {
        let rest = table.drop_last();
        assert forall|i: int, j: int| 0 <= i < j < rest.len() implies (#[trigger] rest[i]).model
            != (#[trigger] rest[j]).model by {
            assert(rest[i] == table[i] && rest[j] == table[j]);
        }
        usage_by_model_has_each_model_once(rest, model);
        assert forall|i: int|
            0 <= i < table.len() && (#[trigger] table[i]).model == model implies field(
            usage_by_model(table),
            model,
        ) == Some(Json::Object(model_entries(table[i]))) by {
            if i < rest.len() {
                assert(rest[i] == table[i]);
                assert(table[i].model != table[table.len() - 1].model);
            }
        }
        if forall|i: int| 0 <= i < table.len() ==> (#[trigger] table[i]).model != model {
            assert forall|i: int| 0 <= i < rest.len() implies (#[trigger] rest[i]).model
                != model by {
                assert(rest[i] == table[i]);
            }
            assert(table[table.len() - 1].model != model);
        }
    }
}

/// A name that was kept last is among the names, and of the others only the
/// oldest can go, and only where the limit is reached.
pub proof fn names_are_kept_up_to_the_limit(ids: Seq<Seq<char>>, id: Seq<char>, other: Seq<char>)
    requires
        recorded_wf(ids),
    ensures
        recorded_wf(remembered(ids, id)),
        remembered(ids, id).contains(id),
        remembered(ids, id).contains(other) ==> ids.contains(other) || other == id,
        ids.contains(other) && !remembered(ids, id).contains(other) ==> ids.len()
            == EMITTED_SUMMARY_ID_LIMIT && other == ids[0],
{
    let after = remembered(ids, id);
    if !ids.contains(id) {
        let longer = ids.push(id);
        assert(longer[ids.len() as int] == id);
        if ids.len() < EMITTED_SUMMARY_ID_LIMIT {
            assert(after[ids.len() as int] == id);
            if ids.contains(other) {
                let i = choose|i: int| 0 <= i < ids.len() && ids[i] == other;
                assert(after[i] == other);
            }
        } else {
            assert(after[ids.len() - 1] == id);
            assert forall|i: int| 0 <= i < after.len() implies #[trigger] after[i] == longer[i
                + 1] by {}
            if ids.contains(other) {
                let i = choose|i: int| 0 <= i < ids.len() && ids[i] == other;
                if i > 0 {
                    assert(after[i - 1] == other);
                }
            }
        }
        assert(longer.no_duplicates());
        if after.contains(other) && other != id {
            let i = choose|i: int| 0 <= i < after.len() && after[i] == other;
            let k = if ids.len() < EMITTED_SUMMARY_ID_LIMIT {
                i
            } else {
                i + 1
            };
            assert(longer[k] == other);
            assert(ids[k] == other);
        }
    }
}

/// No summary is recorded twice: once it was recorded, there is nothing left to
/// record of it.
pub proof fn a_summary_is_recorded_once(
    tracker: ActorView,
    session: SessionView,
    status: Seq<char>,
    ended_at: Timestamp,
    reason: Option<Seq<char>>,
    active_seconds: Json,
    wall_seconds: Json,
)
    requires
        tracker.wf(),
    ensures
        ({
            let summary = session.summary(status, ended_at, reason);
            let event = summary.with_seconds(active_seconds, wall_seconds);
            tracker.settled(OutcomeView::Recorded(event)).to_record(summary) is None
        }),
{
    let summary = session.summary(status, ended_at, reason);
    every_summary_has_a_name(
        session,
        status,
        ended_at,
        reason,
        active_seconds,
        wall_seconds,
        "summary_id"@,
    );
    names_are_kept_up_to_the_limit(
        tracker.recorded,
        session.summary_id(status, ended_at, reason),
        seq![],
    );
}

/// Two runs of one session that started and ended in the same way at the same
/// time still have summaries of different names, if their instances do.
pub proof fn instances_have_summaries_of_their_own(
    session: SessionView,
    other: SessionView,
    status: Seq<char>,
    ended_at: Timestamp,
    reason: Option<Seq<char>>,
)
    requires
        session.key.code_agent == other.key.code_agent,
        session.key.session_id == other.key.session_id,
        session.started_at == other.started_at,
        session.key.session_instance_id is Some,
        other.key.session_instance_id is Some,
        session.key.session_instance_id != other.key.session_instance_id,
    ensures
        session.summary_id(status, ended_at, reason) != other.summary_id(status, ended_at, reason),
{
    let head = session.key.code_agent + ":"@ + session.key.session_id + ":"@;
    let a = session.key.session_instance_id->0;
    let b = other.key.session_instance_id->0;
    let why = match reason {
        Some(reason) => reason,
        None => "none"@,
    };
    let started = crate::time::rfc3339_text(session.started_at.secs, session.started_at.nanos);
    let ended = crate::time::rfc3339_text(ended_at.secs, ended_at.nanos);
    let tail = ":"@ + status + ":"@ + why + ":"@ + started + ":"@ + ended;
    assert(session.summary_id(status, ended_at, reason) =~= head + a + tail);
    assert(other.summary_id(status, ended_at, reason) =~= head + b + tail);
    if head + a + tail == head + b + tail {
        assert((head + a + tail).len() == (head + b + tail).len());
        assert forall|i: int| 0 <= i < a.len() implies a[i] == b[i] by {
            assert((head + a + tail)[head.len() + i] == a[i]);
            assert((head + b + tail)[head.len() + i] == b[i]);
        }
        assert(a =~= b);
    }
}

/// The texts, joined by `:`.
pub open spec fn joined(parts: Seq<Seq<char>>) -> Seq<char>
    decreases parts.len(),
{
    if parts.len() <= 1 {
        parts[0]
    } else {
        joined(parts.drop_last()) + ":"@ + parts.last()
    }
}

/// Whether the object tells the usage of one model: its tokens, its cost, and
/// nothing else.
pub open spec fn tells_row(object: Map<Seq<char>, Json>, row: ModelUsageView) -> bool {
    &&& tells_tokens(object, row.tokens)
    &&& has_value(object, "cost"@, Some(row.cost.number))
    &&& forall|name: Seq<char>| #[trigger]
        object.contains_key(name) ==> name == "tokens_input"@ || name == "tokens_output"@ || name
            == "tokens_cache_read"@ || name == "tokens_cache_write"@ || name == "tokens_total"@
            || name == "cost"@
}

/// Whether the object has for each row an object under the name of its model
/// that tells its usage, and nothing else.
pub open spec fn tells_rows(object: Map<Seq<char>, Json>, table: Seq<ModelUsageView>) -> bool {
    &&& forall|i: int|
        0 <= i < table.len() ==> {
            &&& object.contains_key((#[trigger] table[i]).model)
            &&& object[table[i].model] is Object
            &&& tells_row(object[table[i].model]->Object_0, table[i])
        }
    &&& forall|model: Seq<char>| #[trigger]
        object.contains_key(model) ==> exists|i: int|
            0 <= i < table.len() && (#[trigger] table[i]).model == model
}

/// Whether the data tells of the session, how it ended, and when.
pub open spec fn tells_identity(
    data: Map<Seq<char>, Json>,
    session: SessionView,
    status: Seq<char>,
    ended_at: Timestamp,
    reason: Option<Seq<char>>,
) -> bool {
    &&& has_text(data, "project"@, session.project_name)
    &&& has_text(data, "file"@, session.project_dir)
    &&& has_text(data, "project_dir"@, session.project_dir)
    &&& has_text(data, "language"@, "code-agent"@)
    &&& has_text(data, "status"@, status)
    &&& has_optional_text(data, "reason"@, reason)
    &&& has_text(data, "code_agent"@, session.key.code_agent)
    &&& has_text(data, "session_id"@, session.key.session_id)
    &&& has_optional_text(data, "session_instance_id"@, session.key.session_instance_id)
    &&& has_instant(data, "started_at"@, Some(session.started_at))
    &&& has_instant(data, "ended_at"@, Some(ended_at))
    &&& has_instant(data, "first_active_at"@, session.first_active_at)
    &&& has_instant(data, "last_active_at"@, session.last_active_at)
    &&& has_text(data, "summary_id"@, summary_name(session, status, ended_at, reason))
}

/// The name of a summary: who it is of, how it ended and why, and when it
/// started and ended, joined by `:`.
pub open spec fn summary_name(
    session: SessionView,
    status: Seq<char>,
    ended_at: Timestamp,
    reason: Option<Seq<char>>,
) -> Seq<char> {
    joined(
        seq![
            session.key.code_agent,
            session.key.session_id,
            if session.key.session_instance_id is Some {
                session.key.session_instance_id->0
            } else {
                "legacy"@
            },
            status,
            if reason is Some {
                reason->0
            } else {
                "none"@
            },
            rfc3339_text(session.started_at.secs, session.started_at.nanos),
            rfc3339_text(ended_at.secs, ended_at.nanos),
        ],
    )
}

/// Whether the data tells what the session used, in all and by model.
pub open spec fn tells_usage(data: Map<Seq<char>, Json>, session: SessionView) -> bool {
    &&& tells_tokens(data, session.tokens)
    &&& has_value(
        data,
        "cost_total"@,
        if session.cost.total is Some {
            Some((session.cost.total->0).number)
        } else {
            None
        },
    )
    &&& has_optional_text(data, "cost_currency"@, session.cost.currency)
    &&& has_value(data, "metadata"@, session.metadata)
    &&& has_optional_text(data, "selected_model"@, session.model)
    &&& session.model_usage.len() == 0 ==> has_optional_text(data, "model"@, session.model)
        && !data.contains_key("model_usage"@)
    &&& session.model_usage.len() == 1 ==> has_text(data, "model"@, session.model_usage[0].model)
    &&& session.model_usage.len() > 1 ==> has_text(data, "model"@, "multiple"@)
    &&& session.model_usage.len() > 0 ==> {
        &&& data.contains_key("model_usage"@)
        &&& data["model_usage"@] is Object
        &&& tells_rows(data["model_usage"@]->Object_0, session.model_usage)
    }
}

/// Whether the data tells of the session, what it used, how it ended, and
/// nothing else.
pub open spec fn tells_session(
    data: Map<Seq<char>, Json>,
    session: SessionView,
    status: Seq<char>,
    ended_at: Timestamp,
    reason: Option<Seq<char>>,
) -> bool {
    &&& tells_identity(data, session, status, ended_at, reason)
    &&& tells_usage(data, session)
    &&& forall|name: Seq<char>| #[trigger]
        data.contains_key(name) ==> is_identity_field(name) || is_usage_field(name)
}

/// Whether the summary sums the session up: it begins with the first sign of
/// activity, or with the start where there was none, takes as long as the
/// session was active, and tells of the session; the session took from its start
/// to its end.
pub open spec fn sums_up(
    summary: SummaryView,
    session: SessionView,
    status: Seq<char>,
    ended_at: Timestamp,
    reason: Option<Seq<char>>,
) -> bool {
    &&& summary.event.id is None
    &&& summary.event.timestamp == if session.first_active_at is Some {
        session.first_active_at->0
    } else {
        session.started_at
    }
    &&& summary.event.duration.nanos == session.active_nanos()
    &&& summary.wall_duration.nanos == ended_at.nanos_since(session.started_at)
    &&& tells_session(summary.event.data, session, status, ended_at, reason)
}

proof fn lemma_row_is_told(row: ModelUsageView)
    ensures
        tells_row(model_entries(row), row),
{
    reveal_strlit("cost");
    lemma_names_differ();
    assert("cost"@.len() == 4 && "cost"@[0] == 'c');
    assert("file"@.len() == 4);
    the_total_counts_every_token(row.tokens);
    assert(is_total(row.tokens.effective_total(), row.tokens));
}

proof fn lemma_rows_are_told(table: Seq<ModelUsageView>)
    requires
        distinct_models(table),
    ensures
        tells_rows(usage_by_model(table), table),
{
    assert forall|i: int| 0 <= i < table.len() implies {
        &&& usage_by_model(table).contains_key((#[trigger] table[i]).model)
        &&& usage_by_model(table)[table[i].model] == Json::Object(model_entries(table[i]))
    } by {
        usage_by_model_has_each_model_once(table, table[i].model);
        assert(field(usage_by_model(table), table[i].model) == Some(
            Json::Object(model_entries(table[i])),
        ));
    }
    assert forall|i: int| 0 <= i < table.len() implies tells_row(
        usage_by_model(table)[(#[trigger] table[i]).model]->Object_0,
        table[i],
    ) by {
        lemma_row_is_told(table[i]);
    }
    assert forall|model: Seq<char>| #[trigger]
        usage_by_model(table).contains_key(model) implies exists|i: int|
        0 <= i < table.len() && (#[trigger] table[i]).model == model by {
        if forall|i: int| 0 <= i < table.len() ==> (#[trigger] table[i]).model != model {
            usage_by_model_has_each_model_once(table, model);
        }
    }
}

proof fn lemma_identity_is_told(
    session: SessionView,
    status: Seq<char>,
    ended_at: Timestamp,
    reason: Option<Seq<char>>,
)
    ensures
        tells_identity(
            session.summary_data(status, ended_at, reason),
            session,
            status,
            ended_at,
            reason,
        ),
{
    a_summary_tells_what_the_session_is(session, status, ended_at, reason);
    a_summary_is_named_by_its_parts(session, status, ended_at, reason);
}

/// The name of a summary is made of its seven parts, joined by `:`.
pub proof fn a_summary_is_named_by_its_parts(
    session: SessionView,
    status: Seq<char>,
    ended_at: Timestamp,
    reason: Option<Seq<char>>,
)
    ensures
        session.summary_id(status, ended_at, reason) == summary_name(
            session,
            status,
            ended_at,
            reason,
        ),
{
    reveal_with_fuel(joined, 8);
    let p = seq![
        session.key.code_agent,
        session.key.session_id,
        if session.key.session_instance_id is Some {
            session.key.session_instance_id->0
        } else {
            "legacy"@
        },
        status,
        if reason is Some {
            reason->0
        } else {
            "none"@
        },
        rfc3339_text(session.started_at.secs, session.started_at.nanos),
        rfc3339_text(ended_at.secs, ended_at.nanos),
    ];
    let p6 = p.drop_last();
    let p5 = p6.drop_last();
    let p4 = p5.drop_last();
    let p3 = p4.drop_last();
    let p2 = p3.drop_last();
    let p1 = p2.drop_last();
    assert(joined(p1) == p[0]);
    assert(joined(p2) == joined(p1) + ":"@ + p[1]);
    assert(joined(p3) == joined(p2) + ":"@ + p[2]);
    assert(joined(p4) == joined(p3) + ":"@ + p[3]);
    assert(joined(p5) == joined(p4) + ":"@ + p[4]);
    assert(joined(p6) == joined(p5) + ":"@ + p[5]);
    assert(joined(p) == joined(p6) + ":"@ + p[6]);
    assert(session.summary_id(status, ended_at, reason) =~= joined(p));
}

proof fn lemma_usage_is_told(
    session: SessionView,
    status: Seq<char>,
    ended_at: Timestamp,
    reason: Option<Seq<char>>,
)
    requires
        distinct_models(session.model_usage),
    ensures
        tells_usage(session.summary_data(status, ended_at, reason), session),
{
    a_summary_tells_what_the_session_used(session, status, ended_at, reason);
    the_total_counts_every_token(session.tokens);
    assert(is_total(session.tokens.effective_total(), session.tokens));
    lemma_rows_are_told(session.model_usage);
}

/// A summary tells of its session field by field: what it is, when it was, what
/// it used in all and by model, how it ended, and nothing else.
pub proof fn a_summary_sums_its_session_up(
    session: SessionView,
    status: Seq<char>,
    ended_at: Timestamp,
    reason: Option<Seq<char>>,
)
    requires
        session.wf(),
        ended_at.wf(),
    ensures
        sums_up(
            session.summary(status, ended_at, reason),
            session,
            status,
            ended_at,
            reason,
        ),
        tells_session(
            session.summary_data(status, ended_at, reason),
            session,
            status,
            ended_at,
            reason,
        ),
{
    let data = session.summary_data(status, ended_at, reason);
    lemma_identity_is_told(session, status, ended_at, reason);
    lemma_usage_is_told(session, status, ended_at, reason);
    assert forall|name: Seq<char>| #[trigger] data.contains_key(name) implies is_identity_field(
        name,
    ) || is_usage_field(name) by {
        if !is_usage_field(name) {
            lemma_usage_leaves_the_rest_alone(
                session,
                session.identity_data(status, ended_at, reason),
                name,
            );
        }
    }
    crate::laws::activity::active_time_is_in_range(session);
}

/// Token counts are added to an object each under its own name where it is
/// known, and nothing else of the object changes.
pub proof fn token_counts_are_added_by_name(
    object: Map<Seq<char>, Json>,
    tokens: TokenUsage,
    name: Seq<char>,
)
    ensures
        ({
            let after = with_tokens(object, tokens);
            &&& tokens.input is Some ==> has_count(after, "tokens_input"@, tokens.input)
            &&& tokens.output is Some ==> has_count(after, "tokens_output"@, tokens.output)
            &&& tokens.cache_read is Some ==> has_count(
                after,
                "tokens_cache_read"@,
                tokens.cache_read,
            )
            &&& tokens.cache_write is Some ==> has_count(
                after,
                "tokens_cache_write"@,
                tokens.cache_write,
            )
            &&& exists|total: Option<u64>| #[trigger]
                is_total(total, tokens) && (total is Some ==> has_count(
                    after,
                    "tokens_total"@,
                    total,
                )) && (total is None && name == "tokens_total"@ ==> field(after, name) == field(
                    object,
                    name,
                ))
            &&& (name == "tokens_input"@ && tokens.input is None) || (name == "tokens_output"@
                && tokens.output is None) || (name == "tokens_cache_read"@
                && tokens.cache_read is None) || (name == "tokens_cache_write"@
                && tokens.cache_write is None) || (name != "tokens_input"@ && name
                != "tokens_output"@ && name != "tokens_cache_read"@ && name
                != "tokens_cache_write"@ && name != "tokens_total"@) ==> field(after, name)
                == field(object, name)
        }),
{
    lemma_names_differ();
    the_total_counts_every_token(tokens);
    assert(is_total(tokens.effective_total(), tokens));
}

/// The lengths of time are added to a summary each under its own name; its time,
/// its length and all its other fields stay.
pub proof fn lengths_of_time_are_added(
    summary: SummaryView,
    active_seconds: Json,
    wall_seconds: Json,
    name: Seq<char>,
)
    ensures
        ({
            let event = summary.with_seconds(active_seconds, wall_seconds);
            &&& event.id == summary.event.id
            &&& event.timestamp == summary.event.timestamp
            &&& event.duration == summary.event.duration
            &&& has_value(event.data, "active_duration_seconds"@, Some(active_seconds))
            &&& has_value(event.data, "wall_duration_seconds"@, Some(wall_seconds))
            &&& name != "active_duration_seconds"@ && name != "wall_duration_seconds"@ ==> has_value(
                event.data,
                name,
                field(summary.event.data, name),
            )
        }),
{
    lemma_names_differ();
}

} // verus!
