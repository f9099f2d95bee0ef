//! Laws of what each request does, over the fields of the session that it is
//! about.
use vstd::prelude::*;

use crate::actor::{
    distinct_keys, event_summary_id, has_key, lemma_without, lookup, place_of, replaced, timed_out,
    timed_out_keys, ttl, without, ActorView, OutcomeView,
};
use crate::events::{
    EndView, EventView, HeartbeatView, KeyView, StartView, UpdateView, UsageView,
};
use crate::json::Json;
use crate::laws::activity::{
    a_sign_adds_the_time_since_the_last_one, active_time_is_in_range,
    activity_keeps_sessions_well_formed, idle_time_does_not_count, or_nothing,
};
use crate::laws::basics::{
    is_later, is_merge, metadata_is_merged_field_by_field, ten_thousand_names_are_kept,
    time_runs_by_seconds_and_nanoseconds,
};
use crate::laws::heartbeat::{
    a_heartbeat_tells_of_the_active_sessions, is_heartbeat_of, is_live,
};
use crate::laws::summary::{
    a_summary_is_named_by_its_parts, a_summary_sums_its_session_up, every_summary_has_a_name,
    summary_name, sums_up,
};
use crate::laws::tracking::{
    a_sweep_finds_what_timed_out, lemma_lookup, lemma_lookup_push, lemma_lookup_replaced,
    lemma_lookup_without,
};
use crate::session::{SessionView, SummaryView};
use crate::time::{TimeDelta, Timestamp};
use crate::usage::CostView;

verus! {

/// Whether this is the one session of the list with the key.
pub open spec fn is_the_session(
    sessions: Seq<SessionView>,
    key: KeyView,
    session: SessionView,
) -> bool {
    &&& sessions.contains(session)
    &&& session.key == key
    &&& forall|s: SessionView| #[trigger] sessions.contains(s) && s.key == key ==> s == session
}

/// Whether both lists have the same sessions with other keys.
pub open spec fn others_are_the_same(
    before: Seq<SessionView>,
    after: Seq<SessionView>,
    key: KeyView,
) -> bool {
    forall|s: SessionView|
        s.key != key ==> (#[trigger] before.contains(s) <==> #[trigger] after.contains(s))
}

/// The reported instant, or the other one where none is reported.
pub open spec fn reported_or(at: Option<Timestamp>, now: Timestamp) -> Timestamp {
    if at is Some {
        at->0
    } else {
        now
    }
}

/// How long a session counts as active after a sign: fifty seconds.
pub open spec fn fifty_seconds() -> TimeDelta {
    TimeDelta { nanos: 50_000_000_000 }
}

/// The session with the key is found exactly if the list has it.
pub proof fn sessions_are_found_by_key(
    sessions: Seq<SessionView>,
    key: KeyView,
    session: SessionView,
)
    requires
        distinct_keys(sessions),
    ensures
        lookup(sessions, key) == Some(session) <==> sessions.contains(session) && session.key
            == key,
        lookup(sessions, key) == Some(session) ==> is_the_session(sessions, key, session),
        lookup(sessions, key) is None <==> (forall|s: SessionView| #[trigger]
            sessions.contains(s) ==> s.key != key),
        has_key(sessions, key) <==> lookup(sessions, key) is Some,
{
    if has_key(sessions, key) {
        let at = place_of(sessions, key);
        assert(sessions.contains(sessions[at]));
    }
    if sessions.contains(session) && session.key == key {
        let at = choose|i: int| 0 <= i < sessions.len() && sessions[i] == session;
        lemma_lookup(sessions, key, at);
    }
    assert forall|s: SessionView| #[trigger] sessions.contains(s) && s.key
        == key implies lookup(sessions, key) == Some(s) by {
        let at = choose|i: int| 0 <= i < sessions.len() && sessions[i] == s;
        lemma_lookup(sessions, key, at);
    }
}

proof fn lemma_others(before: Seq<SessionView>, after: Seq<SessionView>, key: KeyView)
    requires
        distinct_keys(before),
        distinct_keys(after),
        forall|other: KeyView|
            other != key ==> #[trigger] lookup(after, other) == lookup(before, other),
    ensures
        others_are_the_same(before, after, key),
{
    assert forall|s: SessionView| s.key != key implies (#[trigger] before.contains(s)
        <==> #[trigger] after.contains(s)) by {
        sessions_are_found_by_key(before, s.key, s);
        sessions_are_found_by_key(after, s.key, s);
        assert(lookup(after, s.key) == lookup(before, s.key));
    }
}

/// Whether nothing has changed of what the session is: its key, its project, its
/// start, and how often its summary failed.
pub open spec fn is_the_same_run(before: SessionView, after: SessionView) -> bool {
    &&& after.key == before.key
    &&& after.project_dir == before.project_dir
    &&& after.project_name == before.project_name
    &&& after.started_at == before.started_at
    &&& after.abandoned_summary_failures == before.abandoned_summary_failures
}

/// Whether the usage is that of the session with the report taken in.
pub open spec fn has_taken_in(
    before: SessionView,
    after: SessionView,
    usage: UsageView,
    cost: CostView,
) -> bool {
    let taken = before.with_usage(usage, cost);
    &&& after.tokens == taken.tokens
    &&& after.cost == taken.cost
    &&& after.model_usage == taken.model_usage
}

/// Whether the activity has not changed.
pub open spec fn has_the_same_activity(before: SessionView, after: SessionView) -> bool {
    &&& after.first_active_at == before.first_active_at
    &&& after.last_active_at == before.last_active_at
    &&& after.active_started_at == before.active_started_at
    &&& after.past_duration == before.past_duration
}

/// Whether the usage and the description have not changed.
pub open spec fn has_the_same_report(before: SessionView, after: SessionView) -> bool {
    &&& after.model == before.model
    &&& after.metadata == before.metadata
    &&& after.tokens == before.tokens
    &&& after.cost == before.cost
    &&& after.model_usage == before.model_usage
}

/// Whether none of the session's own instants lies in a leap second.
pub open spec fn is_free_of_leap_seconds(session: SessionView) -> bool {
    &&& session.last_active_at is Some ==> (session.last_active_at->0).nanos < 1_000_000_000
    &&& session.active_started_at is Some ==> (session.active_started_at->0).nanos
        < 1_000_000_000
}

/// Whether the activity has gone on to the sign: the last sign is the later of
/// it and the last one, the first one stays, and the time since the last one
/// counts if there was a current period and the gap is no longer than `ttl`;
/// otherwise a new period begins.
pub open spec fn has_gone_on_to(
    before: SessionView,
    after: SessionView,
    at: Timestamp,
    ttl: TimeDelta,
) -> bool {
    let last = after.last_active_at->0;
    let goes_on = before.active_started_at is Some && before.last_active_at is Some
        && last.nanos_since(before.last_active_at->0) <= ttl.nanos;
    &&& after.last_active_at is Some
    &&& before.last_active_at is None ==> last == at
    &&& before.last_active_at is Some ==> is_later(last, at, before.last_active_at->0)
    &&& after.first_active_at == if before.first_active_at is Some {
        before.first_active_at
    } else {
        Some(last)
    }
    &&& after.active_started_at == if goes_on {
        before.active_started_at
    } else {
        Some(last)
    }
    &&& after.past_duration.nanos == if goes_on {
        before.past_duration.nanos as int
    } else {
        before.active_nanos()
    }
    &&& is_free_of_leap_seconds(before) && at.nanos < 1_000_000_000 ==> after.active_nanos()
        == before.active_nanos() + if goes_on {
        last.nanos_since(before.last_active_at->0)
    } else {
        0
    }
}

/// Whether the current period of activity, if there was one, was prolonged to
/// the instant and ended there.
pub open spec fn has_ended_at(before: SessionView, after: SessionView, at: Timestamp) -> bool {
    if before.active_started_at is None {
        has_the_same_activity(before, after)
    } else {
        let last = after.last_active_at->0;
        &&& after.active_started_at is None
        &&& after.first_active_at == before.first_active_at
        &&& after.last_active_at is Some
        &&& is_later(last, at, before.last_active_at->0)
        &&& after.past_duration.nanos == before.past_duration.nanos + or_nothing(
            last.nanos_since(before.active_started_at->0),
        )
        &&& is_free_of_leap_seconds(before) && at.nanos < 1_000_000_000 ==> after.active_nanos()
            == before.active_nanos() + last.nanos_since(before.last_active_at->0)
    }
}

/// A sign of activity moves the activity on to it and leaves everything else; the
/// end of a period ends it, and leaves everything else.
pub proof fn signs_and_ends_change_activity_only(
    session: SessionView,
    at: Timestamp,
    ttl: TimeDelta,
)
    requires
        session.wf(),
        at.wf(),
    ensures
        has_gone_on_to(session, session.marked(at, ttl), at, ttl),
        is_the_same_run(session, session.marked(at, ttl)),
        has_the_same_report(session, session.marked(at, ttl)),
        has_ended_at(session, session.finished_at(at), at),
        is_the_same_run(session, session.finished_at(at)),
        has_the_same_report(session, session.finished_at(at)),
        session.last_active_at is Some ==> session.finished() == session.finished_at(
            session.last_active_at->0,
        ),
        session.last_active_at is None ==> session.finished() == session,
        session.active_at(at, ttl) <==> is_live(session, at, ttl),
{
    let end = session.no_earlier_than_last(at);
    activity_keeps_sessions_well_formed(session, at, ttl);
    active_time_is_in_range(session);
    active_time_is_in_range(session.marked(at, ttl));
    active_time_is_in_range(session.finished_at(at));
    if session.last_active_at is Some {
        time_runs_by_seconds_and_nanoseconds(at, session.last_active_at->0, at);
        time_runs_by_seconds_and_nanoseconds(
            end,
            session.last_active_at->0,
            session.active_started_at->0,
        );
        if session.active_started_at is Some && end.nanos_since(session.last_active_at->0)
            <= ttl.nanos {
            if is_free_of_leap_seconds(session) && at.nanos < 1_000_000_000 {
                a_sign_adds_the_time_since_the_last_one(session, at, ttl);
            }
        } else if end.nanos_since(session.last_active_at->0) > ttl.nanos {
            idle_time_does_not_count(session, at, ttl);
        }
    }
}

proof fn lemma_replacement(before: Seq<SessionView>, session: SessionView)
    requires
        distinct_keys(before),
        has_key(before, session.key),
    ensures
        distinct_keys(replaced(before, session)),
        is_the_session(replaced(before, session), session.key, session),
        others_are_the_same(before, replaced(before, session), session.key),
{
    let after = replaced(before, session);
    lemma_lookup_replaced(before, session, session.key);
    sessions_are_found_by_key(after, session.key, session);
    assert forall|other: KeyView| other != session.key implies #[trigger] lookup(after, other)
        == lookup(before, other) by {
        lemma_lookup_replaced(before, session, other);
    }
    lemma_others(before, after, session.key);
}

proof fn lemma_removal(before: Seq<SessionView>, key: KeyView)
    requires
        distinct_keys(before),
    ensures
        distinct_keys(without(before, key)),
        forall|s: SessionView| #[trigger] without(before, key).contains(s) ==> s.key != key,
        others_are_the_same(before, without(before, key), key),
{
    lemma_without(before, key);
}

proof fn lemma_arrival(before: Seq<SessionView>, session: SessionView)
    requires
        distinct_keys(before),
    ensures
        distinct_keys(without(before, session.key).push(session)),
        is_the_session(without(before, session.key).push(session), session.key, session),
        others_are_the_same(before, without(before, session.key).push(session), session.key),
{
    let key = session.key;
    let rest = without(before, key);
    let after = rest.push(session);
    lemma_lookup_without(before, key, key);
    lemma_lookup_push(rest, session, key);
    sessions_are_found_by_key(after, key, session);
    assert forall|other: KeyView| other != key implies #[trigger] lookup(after, other) == lookup(
        before,
        other,
    ) by {
        lemma_lookup_without(before, key, other);
        lemma_lookup_push(rest, session, other);
    }
    lemma_others(before, after, key);
}

/// Whether nothing but the sessions has changed of the tracker.
pub open spec fn only_sessions_change(before: ActorView, after: ActorView) -> bool {
    &&& after.recorded == before.recorded
    &&& after.event_bucket_id == before.event_bucket_id
    &&& after.sum_bucket_id == before.sum_bucket_id
}

/// Whether the session is new: it is what the request says, and has neither
/// activity nor usage.
pub open spec fn is_new_session(
    session: SessionView,
    req: StartView,
    started_at: Timestamp,
    project_name: Seq<char>,
) -> bool {
    &&& session.key == req.key
    &&& session.project_dir == req.project_dir
    &&& session.project_name == project_name
    &&& session.model == req.model
    &&& session.metadata == req.metadata
    &&& session.started_at == started_at
    &&& session.first_active_at is None
    &&& session.last_active_at is None
    &&& session.active_started_at is None
    &&& session.past_duration.nanos == 0
    &&& session.abandoned_summary_failures == 0
    &&& session.tokens.input is None
    &&& session.tokens.output is None
    &&& session.tokens.cache_read is None
    &&& session.tokens.cache_write is None
    &&& session.tokens.total is None
    &&& session.cost.total is None
    &&& session.cost.currency is None
    &&& session.model_usage.len() == 0
}

/// The start of a session that is not known, or has no name of its own for its
/// run, makes a new session, in the place of one with its key.
pub proof fn a_start_makes_a_new_session(
    tracker: ActorView,
    req: StartView,
    started_at: Timestamp,
    name: Seq<char>,
)
    requires
        tracker.wf(),
        req.key.session_instance_id is None || forall|s: SessionView| #[trigger]
            tracker.sessions.contains(s) ==> s.key != req.key,
    ensures
        ({
            let after = tracker.after_start(req, started_at, name);
            &&& only_sessions_change(tracker, after)
            &&& others_are_the_same(tracker.sessions, after.sessions, req.key)
            &&& exists|s: SessionView| #[trigger]
                is_the_session(after.sessions, req.key, s) && is_new_session(
                    s,
                    req,
                    started_at,
                    name,
                )
        }),
        is_new_session(SessionView::started(req, started_at, name), req, started_at, name),
{
    let new = SessionView::started(req, started_at, name);
    if has_key(tracker.sessions, req.key) {
        let at = place_of(tracker.sessions, req.key);
        assert(tracker.sessions.contains(tracker.sessions[at]));
    }
    lemma_arrival(tracker.sessions, new);
    assert(is_the_session(tracker.after_start(req, started_at, name).sessions, req.key, new));
}

/// Whether the description is the one before with the report taken in: the model
/// is the reported one, where one is reported, and the metadata is merged.
pub open spec fn is_described_by(
    before: SessionView,
    after: SessionView,
    model: Option<Seq<char>>,
    metadata: Option<Json>,
) -> bool {
    &&& after.model == if model is Some {
        model
    } else {
        before.model
    }
    &&& is_merge(after.metadata, before.metadata, metadata)
}

/// The start of a run that is known and has a name of its own changes its model
/// and metadata only.
pub proof fn a_known_run_goes_on(
    tracker: ActorView,
    session: SessionView,
    req: StartView,
    started_at: Timestamp,
    name: Seq<char>,
)
    requires
        tracker.wf(),
        tracker.sessions.contains(session),
        session.key == req.key,
        req.key.session_instance_id is Some,
    ensures
        ({
            let after = tracker.after_start(req, started_at, name);
            &&& only_sessions_change(tracker, after)
            &&& others_are_the_same(tracker.sessions, after.sessions, req.key)
            &&& exists|s: SessionView| #[trigger]
                is_the_session(after.sessions, req.key, s) && is_the_same_run(session, s)
                    && has_the_same_activity(session, s) && is_described_by(
                    session,
                    s,
                    req.model,
                    req.metadata,
                ) && s.tokens == session.tokens && s.cost == session.cost && s.model_usage
                    == session.model_usage
        }),
        tracker.start_summary(req) is None,
{
    sessions_are_found_by_key(tracker.sessions, req.key, session);
    let s = session.restarted(req);
    metadata_is_merged_field_by_field(session.metadata, req.metadata);
    lemma_replacement(tracker.sessions, s);
    assert(is_the_session(tracker.after_start(req, started_at, name).sessions, req.key, s));
}

proof fn lemma_usage_is_that_of_the_session(
    before: SessionView,
    other: SessionView,
    usage: UsageView,
    cost: CostView,
)
    requires
        other.tokens == before.tokens,
        other.cost == before.cost,
        other.model_usage == before.model_usage,
    ensures
        has_taken_in(before, other.with_usage(usage, cost), usage, cost),
{
}

/// Whether this is the activity of a session after an update: where it was
/// active, it has gone on to the time of the update, and where the update says
/// that it is no longer active, the period has then ended there.
pub open spec fn is_activity_after_update(
    before: SessionView,
    between: SessionView,
    after: SessionView,
    at: Timestamp,
    active: Option<bool>,
) -> bool {
    &&& if is_live(before, at, fifty_seconds()) {
        has_gone_on_to(before, between, at, fifty_seconds())
    } else {
        has_the_same_activity(before, between)
    }
    &&& if active == Some(false) {
        has_ended_at(between, after, at)
    } else {
        has_the_same_activity(between, after)
    }
}

/// An update of a known session, whether it is active or not, brings its usage,
/// the reported model, and the reported metadata merged in; what the session is
/// stays.
pub proof fn an_update_brings_usage_model_and_metadata(
    tracker: ActorView,
    session: SessionView,
    req: UpdateView,
    cost: CostView,
    now: Timestamp,
)
    requires
        tracker.wf(),
        tracker.sessions.contains(session),
        session.key == req.key,
        reported_or(req.active_at, now).wf(),
    ensures
        ({
            let after = tracker.after_update(req, cost, now);
            let at = reported_or(req.active_at, now);
            &&& only_sessions_change(tracker, after)
            &&& others_are_the_same(tracker.sessions, after.sessions, req.key)
            &&& exists|s: SessionView, between: SessionView| #[trigger]
                is_the_session(after.sessions, req.key, s) && #[trigger] is_activity_after_update(
                    session,
                    between,
                    s,
                    at,
                    req.active,
                ) && is_the_same_run(session, s) && has_taken_in(session, s, req.usage, cost)
                    && is_described_by(session, s, req.model, req.metadata)
        }),
{
    let at = reported_or(req.active_at, now);
    let after = tracker.after_update(req, cost, now);
    sessions_are_found_by_key(tracker.sessions, req.key, session);
    let k = choose|k: int| 0 <= k < tracker.sessions.len() && tracker.sessions[k] == session;
    assert(tracker.sessions[k].wf());
    let between = ActorView::updated_session(session, req, cost, at);
    let s = if req.active == Some(false) {
        between.finished_at(at)
    } else {
        between
    };
    lemma_updated_session(session, between, s, req, cost, at);
    lemma_replacement(tracker.sessions, s);
    assert(is_the_session(after.sessions, req.key, s));
    assert(is_activity_after_update(session, between, s, at, req.active));
}

proof fn lemma_updated_session(
    session: SessionView,
    between: SessionView,
    s: SessionView,
    req: UpdateView,
    cost: CostView,
    at: Timestamp,
)
    requires
        session.wf(),
        at.wf(),
        between == ActorView::updated_session(session, req, cost, at),
        s == if req.active == Some(false) {
            between.finished_at(at)
        } else {
            between
        },
    ensures
        is_activity_after_update(session, between, s, at, req.active),
        is_the_same_run(session, s),
        has_taken_in(session, s, req.usage, cost),
        is_described_by(session, s, req.model, req.metadata),
{
    assert(ttl() == fifty_seconds());
    let marked = if session.active_at(at, ttl()) {
        session.marked(at, ttl())
    } else {
        session
    };
    signs_and_ends_change_activity_only(session, at, fifty_seconds());
    activity_keeps_sessions_well_formed(session, at, ttl());
    lemma_usage_is_that_of_the_session(session, marked, req.usage, cost);
    metadata_is_merged_field_by_field(session.metadata, req.metadata);
    assert(between == marked.updated(req, cost));
    assert(has_the_same_activity(marked, between));
    assert(between.active_nanos() == marked.active_nanos());
    lemma_usage_keeps_sessions_well_formed(marked, req.usage, cost);
    signs_and_ends_change_activity_only(between, at, fifty_seconds());
}

/// An update of an active session is sent on as a heartbeat at its time, which
/// tells of the sessions as they are with the update taken in; whether it also
/// ends the activity does not matter. An update of another session is not.
pub proof fn an_update_is_sent_on_while_active(
    tracker: ActorView,
    session: SessionView,
    req: UpdateView,
    cost: CostView,
    now: Timestamp,
)
    requires
        tracker.wf(),
        tracker.sessions.len() <= u64::MAX,
        tracker.sessions.contains(session),
        session.key == req.key,
    ensures
        ({
            let at = reported_or(req.active_at, now);
            let event = tracker.update_heartbeat(req, cost, now);
            if is_live(session, at, fifty_seconds()) {
                is_heartbeat_of(
                    event,
                    tracker.after_update(
                        UpdateView { active: None, ..req },
                        cost,
                        now,
                    ).sessions,
                    None,
                    at,
                    fifty_seconds(),
                )
            } else {
                event is None
            }
        }),
{
    let at = reported_or(req.active_at, now);
    let plain = UpdateView { active: None, ..req };
    assert(ttl() == fifty_seconds());
    sessions_are_found_by_key(tracker.sessions, req.key, session);
    let s = ActorView::updated_session(session, req, cost, at);
    assert(ActorView::updated_session(session, plain, cost, at) == s);
    lemma_replacement(tracker.sessions, s);
    let sessions = tracker.after_update(plain, cost, now).sessions;
    assert(sessions == replaced(tracker.sessions, s));
    a_heartbeat_tells_of_the_active_sessions(sessions, None, at, fifty_seconds());
}

/// A heartbeat of a known session is a sign of activity at the time at which it
/// was sampled, changes nothing else of the session, and is sent on at that time.
pub proof fn a_heartbeat_is_a_sign_of_activity(
    tracker: ActorView,
    session: SessionView,
    req: HeartbeatView,
    now: Timestamp,
)
    requires
        tracker.wf(),
        tracker.sessions.len() <= u64::MAX,
        tracker.sessions.contains(session),
        session.key == req.key,
        reported_or(req.heartbeat_at, now).wf(),
    ensures
        ({
            let at = reported_or(req.heartbeat_at, now);
            let after = tracker.after_heartbeat(req, now);
            &&& only_sessions_change(tracker, after)
            &&& others_are_the_same(tracker.sessions, after.sessions, req.key)
            &&& exists|s: SessionView| #[trigger]
                is_the_session(after.sessions, req.key, s) && is_the_same_run(session, s)
                    && has_the_same_report(session, s) && has_gone_on_to(session, s, at, fifty_seconds())
            &&& is_heartbeat_of(
                tracker.session_heartbeat(req, now),
                after.sessions,
                None,
                at,
                fifty_seconds(),
            )
        }),
{
    let at = reported_or(req.heartbeat_at, now);
    let after = tracker.after_heartbeat(req, now);
    assert(ttl() == fifty_seconds());
    sessions_are_found_by_key(tracker.sessions, req.key, session);
    let k = choose|k: int| 0 <= k < tracker.sessions.len() && tracker.sessions[k] == session;
    assert(tracker.sessions[k].wf());
    signs_and_ends_change_activity_only(session, at, fifty_seconds());
    let s = session.marked(at, ttl());
    lemma_replacement(tracker.sessions, s);
    assert(is_the_session(after.sessions, req.key, s));
    a_heartbeat_tells_of_the_active_sessions(after.sessions, None, at, fifty_seconds());
}

/// Whether this is the session at its end: its usage has the reported usage taken
/// in, its metadata the reported metadata merged in, and its activity has gone on
/// to the end where it was still active. Everything else stays.
pub open spec fn is_session_at_end(
    before: SessionView,
    ended: SessionView,
    req: EndView,
    cost: CostView,
    ended_at: Timestamp,
) -> bool {
    &&& is_the_same_run(before, ended)
    &&& has_taken_in(before, ended, req.usage, cost)
    &&& is_described_by(before, ended, None, req.metadata)
    &&& if is_live(before, ended_at, fifty_seconds()) {
        has_gone_on_to(before, ended, ended_at, fifty_seconds())
    } else {
        has_the_same_activity(before, ended)
    }
}

/// Whether the second session is the first one with its period of activity ended
/// at the last sign, and nothing else changed.
pub open spec fn is_session_at_rest(session: SessionView, rested: SessionView) -> bool {
    &&& is_the_same_run(session, rested)
    &&& has_the_same_report(session, rested)
    &&& rested.first_active_at == session.first_active_at
    &&& rested.last_active_at == session.last_active_at
    &&& rested.active_started_at is None
    &&& rested.active_nanos() == session.active_nanos()
}

proof fn lemma_rest(session: SessionView)
    requires
        session.wf(),
    ensures
        is_session_at_rest(session, session.finished()),
        session.finished().wf(),
{
    crate::laws::activity::finishing_keeps_active_time(session);
    activity_keeps_sessions_well_formed(session, session.started_at, fifty_seconds());
}

/// Whether the summary that is to be recorded is that of the session: there is
/// none exactly if one of that name was recorded before.
pub open spec fn is_summary_to_record(
    tracker: ActorView,
    summary: Option<SummaryView>,
    session: SessionView,
    status: Seq<char>,
    ended_at: Timestamp,
    reason: Option<Seq<char>>,
) -> bool {
    if tracker.recorded.contains(summary_name(session, status, ended_at, reason)) {
        summary is None
    } else {
        summary is Some && sums_up(summary->0, session, status, ended_at, reason)
    }
}

proof fn lemma_to_record(
    tracker: ActorView,
    session: SessionView,
    status: Seq<char>,
    ended_at: Timestamp,
    reason: Option<Seq<char>>,
)
    requires
        session.wf(),
        ended_at.wf(),
    ensures
        is_summary_to_record(
            tracker,
            tracker.to_record(session.summary(status, ended_at, reason)),
            session,
            status,
            ended_at,
            reason,
        ),
        tracker.is_recorded(session.summary(status, ended_at, reason)) <==> tracker.recorded.contains(
            summary_name(session, status, ended_at, reason),
        ),
{
    a_summary_sums_its_session_up(session, status, ended_at, reason);
    a_summary_is_named_by_its_parts(session, status, ended_at, reason);
    every_summary_has_a_name(
        session,
        status,
        ended_at,
        reason,
        Json::Null,
        Json::Null,
        "summary_id"@,
    );
}

/// Whether this plan ends the session: the summary is that of a completed session
/// with everything the end reports taken in, and where the session was still
/// active, a heartbeat of its end is sent with the session as it then is.
pub open spec fn is_plan_for_end(
    tracker: ActorView,
    session: SessionView,
    req: EndView,
    cost: CostView,
    now: Timestamp,
    ended: SessionView,
    rested: SessionView,
) -> bool {
    let ended_at = reported_or(req.ended_at, now);
    let plan = tracker.end_plan(session, req, cost, now);
    &&& is_session_at_end(session, ended, req, cost, ended_at)
    &&& is_session_at_rest(ended, rested)
    &&& is_summary_to_record(tracker, plan.summary, rested, "completed"@, ended_at, None)
    &&& if is_live(session, ended_at, fifty_seconds()) {
        is_heartbeat_of(
            plan.heartbeat,
            tracker.sessions,
            Some(ended),
            ended_at,
            fifty_seconds(),
        )
    } else {
        plan.heartbeat is None
    }
}

/// The end of a known session, whether it is still active or not, is summed up
/// with the usage and the metadata that the end reports.
pub proof fn an_end_is_summed_up_with_what_it_reports(
    tracker: ActorView,
    session: SessionView,
    req: EndView,
    cost: CostView,
    now: Timestamp,
)
    requires
        tracker.wf(),
        tracker.sessions.len() <= u64::MAX,
        session.wf(),
        reported_or(req.ended_at, now).wf(),
    ensures
        exists|ended: SessionView, rested: SessionView| #[trigger]
            is_plan_for_end(tracker, session, req, cost, now, ended, rested),
{
    let ended_at = reported_or(req.ended_at, now);
    assert(ttl() == fifty_seconds());
    signs_and_ends_change_activity_only(session, ended_at, fifty_seconds());
    activity_keeps_sessions_well_formed(session, ended_at, ttl());
    let marked = if session.active_at(ended_at, ttl()) {
        session.marked(ended_at, ttl())
    } else {
        session
    };
    lemma_usage_is_that_of_the_session(session, marked, req.usage, cost);
    metadata_is_merged_field_by_field(session.metadata, req.metadata);
    let ended = marked.ended(req, cost);
    assert(has_the_same_activity(marked, ended));
    assert(ended.active_nanos() == marked.active_nanos());
    lemma_usage_keeps_sessions_well_formed(marked, req.usage, cost);
    lemma_rest(ended);
    lemma_to_record(tracker, ended.finished(), "completed"@, ended_at, None);
    a_heartbeat_tells_of_the_active_sessions(
        tracker.sessions,
        Some(ended),
        ended_at,
        fifty_seconds(),
    );
    assert(is_plan_for_end(tracker, session, req, cost, now, ended, ended.finished()));
}

proof fn lemma_usage_keeps_sessions_well_formed(
    session: SessionView,
    usage: UsageView,
    cost: CostView,
)
    requires
        session.wf(),
    ensures
        session.with_usage(usage, cost).wf(),
{
    if let Some(incoming) = usage.model_usage {
        crate::laws::usage::lemma_snapshots_keep_models_distinct(session.model_usage, incoming);
    }
}

/// A session that is abandoned is summed up at its last sign of activity, for the
/// reason given, with all that is known of it, unless it was never active; it is
/// taken out in any case. So is one whose place is taken at a start.
pub proof fn an_abandoned_session_is_summed_up(
    tracker: ActorView,
    session: SessionView,
    reason: Seq<char>,
    req: StartView,
)
    requires
        tracker.wf(),
        tracker.sessions.contains(session),
        req.key == session.key,
    ensures
        ({
            let after = tracker.after_abandoning(session.key);
            &&& only_sessions_change(tracker, after)
            &&& others_are_the_same(tracker.sessions, after.sessions, session.key)
            &&& forall|s: SessionView| #[trigger] after.sessions.contains(s) ==> s.key
                != session.key
        }),
        session.first_active_at is None ==> tracker.abandoned(session.key, reason) is None
            && tracker.start_summary(req) is None,
        session.first_active_at is Some ==> exists|rested: SessionView| #[trigger]
            is_session_at_rest(session, rested) && is_summary_to_record(
                tracker,
                match tracker.abandoned(session.key, reason) {
                    Some((_, summary)) => Some(summary),
                    None => None,
                },
                rested,
                "abandoned"@,
                session.last_active_at->0,
                Some(reason),
            ) && (tracker.abandoned(session.key, reason) is Some ==> (tracker.abandoned(
                session.key,
                reason,
            )->0).0 == rested) && (session.key.session_instance_id is None ==> is_summary_to_record(
                tracker,
                tracker.start_summary(req),
                rested,
                "abandoned"@,
                session.last_active_at->0,
                Some("duplicate_start"@),
            )),
{
    sessions_are_found_by_key(tracker.sessions, session.key, session);
    let k = choose|k: int| 0 <= k < tracker.sessions.len() && tracker.sessions[k] == session;
    assert(tracker.sessions[k].wf());
    lemma_removal(tracker.sessions, session.key);
    if session.first_active_at is Some {
        let rested = session.finished();
        let last = session.last_active_at->0;
        lemma_rest(session);
        lemma_to_record(tracker, rested, "abandoned"@, last, Some(reason));
        lemma_to_record(tracker, rested, "abandoned"@, last, Some("duplicate_start"@));
        assert(is_session_at_rest(session, rested));
    }
}

/// Nothing is abandoned, and nothing summed up at a start, of a session that is
/// not known.
pub proof fn unknown_sessions_are_not_summed_up(
    tracker: ActorView,
    key: KeyView,
    reason: Seq<char>,
    req: StartView,
)
    requires
        tracker.wf(),
        req.key == key,
        forall|s: SessionView| #[trigger] tracker.sessions.contains(s) ==> s.key != key,
    ensures
        tracker.abandoned(key, reason) is None,
        tracker.start_summary(req) is None,
        tracker.after_abandoning(key) == tracker,
{
    if has_key(tracker.sessions, key) {
        let at = place_of(tracker.sessions, key);
        assert(tracker.sessions.contains(tracker.sessions[at]));
    }
}

/// Whether a session has gone without a sign of activity for more than three
/// hundred seconds, counted from its last sign, or from its start where it never
/// gave one.
pub open spec fn is_silent_for_too_long(session: SessionView, now: Timestamp) -> bool {
    if session.last_active_at is Some {
        now.nanos_since(session.last_active_at->0) > 300_000_000_000
    } else {
        now.nanos_since(session.started_at) > 300_000_000_000
    }
}

/// Whether some session of the list has the key.
pub open spec fn is_key_of_some(sessions: Seq<SessionView>, key: KeyView) -> bool {
    exists|s: SessionView| #[trigger] sessions.contains(s) && s.key == key
}

/// A sweep gives the keys of exactly those sessions that have been silent for
/// more than three hundred seconds, each once, in the order of the sessions.
pub proof fn a_sweep_finds_the_silent_sessions(tracker: ActorView, now: Timestamp)
    requires
        tracker.wf(),
    ensures
        ({
            let keys = timed_out_keys(tracker.sessions, now);
            &&& forall|s: SessionView| #[trigger]
                tracker.sessions.contains(s) ==> (keys.contains(s.key) <==> is_silent_for_too_long(
                    s,
                    now,
                ))
            &&& forall|k: int|
                0 <= k < keys.len() ==> is_key_of_some(tracker.sessions, #[trigger] keys[k])
            &&& forall|i: int, j: int|
                0 <= i < j < keys.len() ==> #[trigger] keys[i] != #[trigger] keys[j]
        }),
{
    let sessions = tracker.sessions;
    let keys = timed_out_keys(sessions, now);
    crate::laws::tracking::lemma_timed_out_keys(sessions, now);
    assert forall|s: SessionView| #[trigger] sessions.contains(s) implies (keys.contains(s.key)
        <==> is_silent_for_too_long(s, now)) by {
        let at = choose|i: int| 0 <= i < sessions.len() && sessions[i] == s;
        a_sweep_finds_what_timed_out(sessions, now, s.key);
        assert(sessions[at].key == s.key);
        assert(timed_out(s, now) <==> is_silent_for_too_long(s, now));
        if keys.contains(s.key) {
            let i = choose|i: int|
                0 <= i < sessions.len() && (#[trigger] sessions[i]).key == s.key && timed_out(
                    sessions[i],
                    now,
                );
            assert(i == at);
        }
    }
    assert forall|k: int| 0 <= k < keys.len() implies is_key_of_some(
        sessions,
        #[trigger] keys[k],
    ) by {
        assert(has_key(sessions, keys[k]));
        let at = place_of(sessions, keys[k]);
        assert(sessions.contains(sessions[at]));
    }
}

/// Whether the name is kept of a recorded summary: it is then the last one, or
/// was there before.
pub open spec fn keeps_name(before: ActorView, after: ActorView, name: Seq<char>) -> bool {
    &&& after.sessions == before.sessions
    &&& after.event_bucket_id == before.event_bucket_id
    &&& after.sum_bucket_id == before.sum_bucket_id
    &&& after.recorded.len() > 0
    &&& if before.recorded.contains(name) {
        after.recorded == before.recorded
    } else {
        after.recorded[after.recorded.len() - 1] == name
    }
}

/// The name of a recorded event is what its field `summary_id` says, and it is
/// kept; without such a text, and without a recording, nothing changes.
pub proof fn recorded_names_are_kept(
    tracker: ActorView,
    event: EventView,
    name: Seq<char>,
    cause: Seq<char>,
)
    requires
        tracker.wf(),
    ensures
        event.data.contains_key("summary_id"@) && event.data["summary_id"@] == Json::Text(name)
            ==> keeps_name(tracker, tracker.settled(OutcomeView::Recorded(event)), name)
            && event_summary_id(event) == Some(name),
        !event.data.contains_key("summary_id"@) || !(event.data["summary_id"@] is Text)
            ==> tracker.settled(OutcomeView::Recorded(event)) == tracker && event_summary_id(event)
            is None,
        tracker.settled(OutcomeView::AlreadyRecorded) == tracker,
        tracker.settled(OutcomeView::Failed(cause)) == tracker,
{
    ten_thousand_names_are_kept(tracker.recorded, name);
    if tracker.recorded.contains(name) {
        let i = choose|i: int| 0 <= i < tracker.recorded.len() && tracker.recorded[i] == name;
        assert(tracker.recorded[i] == name);
    }
}

/// A session is gone once its end is recorded, or was before, and then the name
/// of what was recorded is kept; where that failed, nothing has changed.
pub proof fn a_recorded_end_removes_the_session(
    tracker: ActorView,
    key: KeyView,
    outcome: OutcomeView,
)
    requires
        tracker.wf(),
    ensures
        ({
            let after = tracker.after_end(key, outcome);
            if outcome is Failed {
                after == tracker
            } else {
                &&& forall|s: SessionView| #[trigger] after.sessions.contains(s) ==> s.key != key
                &&& others_are_the_same(tracker.sessions, after.sessions, key)
                &&& after.recorded == tracker.settled(outcome).recorded
                &&& outcome is AlreadyRecorded ==> after.recorded == tracker.recorded
            }
        }),
{
    lemma_removal(tracker.sessions, key);
}

/// A session whose summary could not be recorded comes back as it was, with one
/// more failure, as long as it has failed fewer than ten times; otherwise the
/// outcome is settled and it does not come back.
pub proof fn a_timed_out_session_comes_back_nine_times(
    tracker: ActorView,
    session: SessionView,
    outcome: OutcomeView,
)
    requires
        tracker.wf(),
    ensures
        ({
            let after = tracker.after_timeout(session, outcome);
            if outcome is Failed && session.abandoned_summary_failures + 1 < 10 {
                &&& only_sessions_change(tracker, after)
                &&& others_are_the_same(tracker.sessions, after.sessions, session.key)
                &&& exists|s: SessionView| #[trigger]
                    is_the_session(after.sessions, session.key, s)
                        && s.abandoned_summary_failures == session.abandoned_summary_failures + 1
                        && has_the_same_activity(session, s) && has_the_same_report(session, s)
                        && s.project_dir == session.project_dir && s.project_name
                        == session.project_name && s.started_at == session.started_at
            } else if outcome is Failed {
                after == tracker
            } else {
                after == tracker.settled(outcome)
            }
        }),
{
    let s = ActorView::failed_once_more(session);
    lemma_arrival(tracker.sessions, s);
    if outcome is Failed && session.abandoned_summary_failures + 1 < 10 {
        assert(is_the_session(tracker.after_timeout(session, outcome).sessions, session.key, s));
    }
}

/// A heartbeat or an update of a session that is not known changes nothing and is
/// not sent on.
pub proof fn requests_of_unknown_sessions_do_nothing(
    tracker: ActorView,
    update: UpdateView,
    heartbeat: HeartbeatView,
    cost: CostView,
    now: Timestamp,
)
    ensures
        (forall|s: SessionView| #[trigger] tracker.sessions.contains(s) ==> s.key != update.key)
            ==> tracker.after_update(update, cost, now) == tracker && tracker.update_heartbeat(
            update,
            cost,
            now,
        ) is None,
        (forall|s: SessionView| #[trigger] tracker.sessions.contains(s) ==> s.key
            != heartbeat.key) ==> tracker.after_heartbeat(heartbeat, now) == tracker
            && tracker.session_heartbeat(heartbeat, now) is None,
{
    if has_key(tracker.sessions, update.key) {
        let at = place_of(tracker.sessions, update.key);
        assert(tracker.sessions.contains(tracker.sessions[at]));
    }
    if has_key(tracker.sessions, heartbeat.key) {
        let at = place_of(tracker.sessions, heartbeat.key);
        assert(tracker.sessions.contains(tracker.sessions[at]));
    }
}

/// Each report of a session brings its usage, model and metadata as far as it has
/// them: an update all three, an end its usage and metadata, and a start that is
/// sent again its model and metadata. What the session is, and its activity, stay.
pub proof fn reports_bring_what_they_have(
    session: SessionView,
    start: StartView,
    update: UpdateView,
    end: EndView,
    cost: CostView,
)
    ensures
        ({
            let after = session.updated(update, cost);
            &&& is_the_same_run(session, after)
            &&& has_the_same_activity(session, after)
            &&& has_taken_in(session, after, update.usage, cost)
            &&& is_described_by(session, after, update.model, update.metadata)
        }),
        ({
            let after = session.ended(end, cost);
            &&& is_the_same_run(session, after)
            &&& has_the_same_activity(session, after)
            &&& has_taken_in(session, after, end.usage, cost)
            &&& is_described_by(session, after, None, end.metadata)
        }),
        ({
            let after = session.restarted(start);
            &&& is_the_same_run(session, after)
            &&& has_the_same_activity(session, after)
            &&& after.tokens == session.tokens
            &&& after.cost == session.cost
            &&& after.model_usage == session.model_usage
            &&& is_described_by(session, after, start.model, start.metadata)
        }),
        ({
            let after = session.with_usage(update.usage, cost);
            &&& is_the_same_run(session, after)
            &&& has_the_same_activity(session, after)
            &&& after.model == session.model
            &&& after.metadata == session.metadata
        }),
{
    metadata_is_merged_field_by_field(session.metadata, update.metadata);
    metadata_is_merged_field_by_field(session.metadata, end.metadata);
    metadata_is_merged_field_by_field(session.metadata, start.metadata);
}

} // verus!
