//! Laws of the tracker of all sessions.
use vstd::prelude::*;

use crate::actor::{
    abandoned_summary, distinct_keys, has_key, lemma_place, lemma_without, lookup, place_of,
    replaced, timed_out, timed_out_keys, tracked_wf, ttl, without, ActorView, OutcomeView,
    ABANDONED_SUMMARY_MAX_FAILURES,
};
use crate::events::{HeartbeatView, KeyView, StartView, UpdateView};
use crate::json::Json;
use crate::laws::usage::total_is_sum;
use crate::session::{instant_or, SessionView};
use crate::time::Timestamp;
use crate::usage::CostView;

verus! {

pub(crate) proof fn lemma_lookup(sessions: Seq<SessionView>, key: KeyView, at: int)
    requires
        distinct_keys(sessions),
        0 <= at < sessions.len(),
        sessions[at].key == key,
    ensures
        lookup(sessions, key) == Some(sessions[at]),
{
    lemma_place(sessions, key, at);
}

pub(crate) proof fn lemma_lookup_replaced(sessions: Seq<SessionView>, session: SessionView, key: KeyView)
    requires
        distinct_keys(sessions),
        has_key(sessions, session.key),
    ensures
        distinct_keys(replaced(sessions, session)),
        lookup(replaced(sessions, session), session.key) == Some(session),
        key != session.key ==> lookup(replaced(sessions, session), key) == lookup(sessions, key),
{
    let place = place_of(sessions, session.key);
    let after = replaced(sessions, session);
    assert(distinct_keys(after)) by {
        assert forall|i: int, j: int| 0 <= i < j < after.len() implies (#[trigger] after[i]).key
            != (#[trigger] after[j]).key by {
            assert(after[i].key == sessions[i].key);
            assert(after[j].key == sessions[j].key);
        }
    }
    lemma_lookup(after, session.key, place);
    if key != session.key {
        if has_key(sessions, key) {
            let at = place_of(sessions, key);
            assert(after[at] == sessions[at]);
            lemma_lookup(after, key, at);
        } else if has_key(after, key) {
            let at = place_of(after, key);
            assert(sessions[at].key == key);
        }
    }
}

pub(crate) proof fn lemma_lookup_without(sessions: Seq<SessionView>, gone: KeyView, key: KeyView)
    requires
        distinct_keys(sessions),
    ensures
        distinct_keys(without(sessions, gone)),
        !has_key(without(sessions, gone), gone),
        lookup(without(sessions, gone), gone) is None,
        key != gone ==> lookup(without(sessions, gone), key) == lookup(sessions, key),
{
    lemma_without(sessions, gone);
    let after = without(sessions, gone);
    if key != gone {
        if has_key(sessions, key) {
            let at = place_of(sessions, key);
            assert(sessions.contains(sessions[at]));
            assert(after.contains(sessions[at]));
            let now_at = choose|i: int| 0 <= i < after.len() && after[i] == sessions[at];
            lemma_lookup(after, key, now_at);
        } else if has_key(after, key) {
            let at = place_of(after, key);
            assert(after.contains(after[at]));
            let was_at = choose|i: int| 0 <= i < sessions.len() && sessions[i] == after[at];
            assert(sessions[was_at].key == key);
        }
    }
}

pub(crate) proof fn lemma_lookup_push(sessions: Seq<SessionView>, session: SessionView, key: KeyView)
    requires
        distinct_keys(sessions),
        !has_key(sessions, session.key),
    ensures
        distinct_keys(sessions.push(session)),
        lookup(sessions.push(session), session.key) == Some(session),
        key != session.key ==> lookup(sessions.push(session), key) == lookup(sessions, key),
{
    let after = sessions.push(session);
    crate::actor::lemma_push_keeps_keys_distinct(sessions, session);
    lemma_lookup(after, session.key, sessions.len() as int);
    if key != session.key {
        if has_key(sessions, key) {
            let at = place_of(sessions, key);
            assert(after[at] == sessions[at]);
            lemma_lookup(after, key, at);
        } else if has_key(after, key) {
            let at = place_of(after, key);
            assert(sessions[at].key == key);
        }
    }
}

/// What is done to one session leaves all others as they were: those of other
/// agents, other sessions, and other instances of the same session.
pub proof fn other_sessions_are_left_alone(
    tracker: ActorView,
    key: KeyView,
    start: StartView,
    update: UpdateView,
    heartbeat: HeartbeatView,
    ended: KeyView,
    outcome: OutcomeView,
    session: SessionView,
    cost: CostView,
    at: Timestamp,
    name: Seq<char>,
)
    requires
        tracker.wf(),
    ensures
        key != start.key ==> lookup(tracker.after_start(start, at, name).sessions, key) == lookup(
            tracker.sessions,
            key,
        ),
        key != update.key ==> lookup(tracker.after_update(update, cost, at).sessions, key)
            == lookup(tracker.sessions, key),
        key != heartbeat.key ==> lookup(tracker.after_heartbeat(heartbeat, at).sessions, key)
            == lookup(tracker.sessions, key),
        key != ended ==> lookup(tracker.after_end(ended, outcome).sessions, key) == lookup(
            tracker.sessions,
            key,
        ),
        key != ended ==> lookup(tracker.after_abandoning(ended).sessions, key) == lookup(
            tracker.sessions,
            key,
        ),
        key != session.key ==> lookup(tracker.after_timeout(session, outcome).sessions, key)
            == lookup(tracker.sessions, key),
{
    let sessions = tracker.sessions;
    if has_key(sessions, start.key) {
        lemma_lookup_replaced(sessions, (lookup(sessions, start.key)->0).restarted(start), key);
    }
    lemma_without(sessions, start.key);
    lemma_lookup_without(sessions, start.key, key);
    lemma_lookup_push(without(sessions, start.key), SessionView::started(start, at, name), key);
    if has_key(sessions, update.key) {
        let when = instant_or(update.active_at, at);
        let amid = ActorView::updated_session(lookup(sessions, update.key)->0, update, cost, when);
        lemma_lookup_replaced(sessions, amid, key);
        lemma_lookup_replaced(sessions, amid.finished_at(when), key);
    }
    if has_key(sessions, heartbeat.key) {
        let when = instant_or(heartbeat.heartbeat_at, at);
        lemma_lookup_replaced(
            sessions,
            (lookup(sessions, heartbeat.key)->0).marked(when, ttl()),
            key,
        );
    }
    lemma_lookup_without(sessions, ended, key);
    lemma_without(sessions, session.key);
    lemma_lookup_without(sessions, session.key, key);
    lemma_lookup_push(
        without(sessions, session.key),
        ActorView::failed_once_more(session),
        key,
    );
}

/// What each request makes of the session that it is about.
pub proof fn each_request_does_its_work(
    tracker: ActorView,
    start: StartView,
    update: UpdateView,
    heartbeat: HeartbeatView,
    cost: CostView,
    at: Timestamp,
    name: Seq<char>,
)
    requires
        tracker.wf(),
    ensures
        lookup(tracker.after_start(start, at, name).sessions, start.key) == Some(
            if has_key(tracker.sessions, start.key) && start.key.session_instance_id is Some {
                (lookup(tracker.sessions, start.key)->0).restarted(start)
            } else {
                SessionView::started(start, at, name)
            },
        ),
        has_key(tracker.sessions, heartbeat.key) ==> lookup(
            tracker.after_heartbeat(heartbeat, at).sessions,
            heartbeat.key,
        ) == Some(
            (lookup(tracker.sessions, heartbeat.key)->0).marked(
                instant_or(heartbeat.heartbeat_at, at),
                ttl(),
            ),
        ),
        has_key(tracker.sessions, update.key) ==> lookup(
            tracker.after_update(update, cost, at).sessions,
            update.key,
        ) == Some(
            {
                let when = instant_or(update.active_at, at);
                let updated = ActorView::updated_session(
                    lookup(tracker.sessions, update.key)->0,
                    update,
                    cost,
                    when,
                );
                if update.active == Some(false) {
                    updated.finished_at(when)
                } else {
                    updated
                }
            },
        ),
{
    let sessions = tracker.sessions;
    if has_key(sessions, start.key) {
        lemma_lookup_replaced(
            sessions,
            (lookup(sessions, start.key)->0).restarted(start),
            start.key,
        );
    }
    lemma_without(sessions, start.key);
    lemma_lookup_push(without(sessions, start.key), SessionView::started(start, at, name), start.key);
    if has_key(sessions, update.key) {
        let when = instant_or(update.active_at, at);
        let amid = ActorView::updated_session(lookup(sessions, update.key)->0, update, cost, when);
        lemma_lookup_replaced(sessions, amid, update.key);
        lemma_lookup_replaced(sessions, amid.finished_at(when), update.key);
    }
    if has_key(sessions, heartbeat.key) {
        let when = instant_or(heartbeat.heartbeat_at, at);
        lemma_lookup_replaced(
            sessions,
            (lookup(sessions, heartbeat.key)->0).marked(when, ttl()),
            heartbeat.key,
        );
    }
}

/// An update or a heartbeat of a session that is not known changes nothing, and
/// nothing is sent on account of it.
pub proof fn unknown_sessions_are_ignored(
    tracker: ActorView,
    update: UpdateView,
    heartbeat: HeartbeatView,
    cost: CostView,
    now: Timestamp,
)
    ensures
        !has_key(tracker.sessions, update.key) ==> tracker.after_update(update, cost, now)
            == tracker && tracker.update_heartbeat(update, cost, now) is None,
        !has_key(tracker.sessions, heartbeat.key) ==> tracker.after_heartbeat(heartbeat, now)
            == tracker && tracker.session_heartbeat(heartbeat, now) is None,
{
}

/// A session ends for good once its summary is recorded, and until then not at
/// all: where the summary could not be recorded everything is as it was, so
/// that the end can be reported again.
pub proof fn a_session_ends_with_its_summary(tracker: ActorView, key: KeyView, outcome: OutcomeView)
    requires
        tracker.wf(),
    ensures
        outcome is Failed ==> tracker.after_end(key, outcome) == tracker,
        !(outcome is Failed) ==> !has_key(tracker.after_end(key, outcome).sessions, key),
{
    lemma_without(tracker.sessions, key);
}

/// To start a run that has a name of its own once more, with the same request,
/// changes nothing and leaves nothing to record.
pub proof fn starting_again_changes_nothing(
    tracker: ActorView,
    req: StartView,
    first: Timestamp,
    again: Timestamp,
    name: Seq<char>,
    name_again: Seq<char>,
)
    requires
        tracker.wf(),
        req.key.session_instance_id is Some,
    ensures
        tracker.after_start(req, first, name).after_start(req, again, name_again) == tracker.after_start(req, first, name),
        tracker.start_summary(req) is None,
        tracker.after_start(req, first, name).start_summary(req) is None,
{
    let sessions = tracker.sessions;
    let after = tracker.after_start(req, first, name);
    lemma_without(sessions, req.key);
    if has_key(sessions, req.key) {
        let session = lookup(sessions, req.key)->0;
        crate::laws::usage::restart_is_idempotent(session, req);
        lemma_lookup_replaced(sessions, session.restarted(req), req.key);
    } else {
        let session = SessionView::started(req, first, name);
        crate::laws::usage::restart_is_idempotent(session, req);
        lemma_lookup_push(sessions, session, req.key);
    }
    let kept = lookup(after.sessions, req.key)->0;
    assert(kept.restarted(req) == kept);
    assert(after.sessions.update(place_of(after.sessions, req.key), kept) =~= after.sessions);
}

/// A session that was never active leaves no summary when it is abandoned or
/// when another one takes its place.
pub proof fn sessions_without_activity_leave_no_summary(
    tracker: ActorView,
    req: StartView,
    key: KeyView,
    reason: Seq<char>,
)
    ensures
        (lookup(tracker.sessions, key) is Some && !(lookup(
            tracker.sessions,
            key,
        )->0).ever_active()) ==> tracker.abandoned(key, reason) is None,
        (lookup(tracker.sessions, req.key) is Some && !(lookup(
            tracker.sessions,
            req.key,
        )->0).ever_active()) ==> tracker.start_summary(req) is None,
{
}

/// No session is tracked any longer once its summary failed too often: each
/// failure counts, and with the last one that is allowed the session is gone.
pub proof fn failures_come_to_an_end(tracker: ActorView, session: SessionView, cause: Seq<char>)
    requires
        tracker.wf(),
        tracked_wf(session),
    ensures
        ({
            let after = tracker.after_timeout(session, OutcomeView::Failed(cause));
            let failures = session.abandoned_summary_failures + 1;
            if failures < ABANDONED_SUMMARY_MAX_FAILURES {
                lookup(after.sessions, session.key) == Some(
                    SessionView { abandoned_summary_failures: failures as u32, ..session },
                )
            } else {
                after == tracker
            }
        }),
{
    lemma_without(tracker.sessions, session.key);
    lemma_lookup_push(
        without(tracker.sessions, session.key),
        ActorView::failed_once_more(session),
        session.key,
    );
}

/// A sweep finds exactly those sessions that have timed out.
pub proof fn a_sweep_finds_what_timed_out(
    sessions: Seq<SessionView>,
    now: Timestamp,
    key: KeyView,
)
    ensures
        timed_out_keys(sessions, now).contains(key) <==> exists|i: int|
            0 <= i < sessions.len() && (#[trigger] sessions[i]).key == key && timed_out(
                sessions[i],
                now,
            ),
    decreases sessions.len(),
{
    let keys = timed_out_keys(sessions, now);
    if sessions.len() > 0 {
        let rest = sessions.drop_last();
        let fewer = timed_out_keys(rest, now);
        a_sweep_finds_what_timed_out(rest, now, key);
        if keys.contains(key) {
            let k = choose|k: int| 0 <= k < keys.len() && keys[k] == key;
            if k < fewer.len() {
                assert(fewer[k] == key);
                let i = choose|i: int|
                    0 <= i < rest.len() && (#[trigger] rest[i]).key == key && timed_out(
                        rest[i],
                        now,
                    );
                assert(sessions[i] == rest[i]);
            } else {
                assert(sessions[sessions.len() - 1].key == key);
            }
        }
        if exists|i: int|
            0 <= i < sessions.len() && (#[trigger] sessions[i]).key == key && timed_out(
                sessions[i],
                now,
            ) {
            let i = choose|i: int|
                0 <= i < sessions.len() && (#[trigger] sessions[i]).key == key && timed_out(
                    sessions[i],
                    now,
                );
            if i < rest.len() {
                assert(rest[i].key == key);
                let k = choose|k: int| 0 <= k < fewer.len() && fewer[k] == key;
                assert(keys[k] == key);
            } else {
                assert(keys[keys.len() - 1] == key);
            }
        }
    }
}

/// A session that is active has not timed out.
pub proof fn active_sessions_do_not_time_out(session: SessionView, now: Timestamp)
    requires
        session.active_at(now, ttl()),
    ensures
        !timed_out(session, now),
{
}

/// The tracker after the sessions with these keys were taken out one by one.
pub open spec fn after_abandoning_all(tracker: ActorView, keys: Seq<KeyView>) -> ActorView
    decreases keys.len(),
{
    if keys.len() == 0 {
        tracker
    } else {
        after_abandoning_all(tracker, keys.drop_last()).after_abandoning(keys.last())
    }
}

proof fn lemma_taken_out(tracker: ActorView, keys: Seq<KeyView>)
    requires
        distinct_keys(tracker.sessions),
    ensures
        distinct_keys(after_abandoning_all(tracker, keys).sessions),
        forall|s: SessionView| #[trigger]
            after_abandoning_all(tracker, keys).sessions.contains(s) <==> tracker.sessions.contains(
                s,
            ) && !keys.contains(s.key),
    decreases keys.len(),
{
    if keys.len() > 0 {
        let fewer = keys.drop_last();
        lemma_taken_out(tracker, fewer);
        let before = after_abandoning_all(tracker, fewer);
        lemma_without(before.sessions, keys.last());
        assert forall|s: SessionView| #[trigger]
            after_abandoning_all(tracker, keys).sessions.contains(s) <==> tracker.sessions.contains(
                s,
            ) && !keys.contains(s.key) by {
            if keys.contains(s.key) {
                let k = choose|k: int| 0 <= k < keys.len() && keys[k] == s.key;
                if k < fewer.len() {
                    assert(fewer[k] == s.key);
                }
            } else {
                if fewer.contains(s.key) {
                    let k = choose|k: int| 0 <= k < fewer.len() && fewer[k] == s.key;
                    assert(keys[k] == s.key);
                }
                if s.key == keys.last() {
                    assert(keys[keys.len() - 1] == s.key);
                }
            }
        }
    }
}

/// Once the sessions that a sweep finds have been taken out, exactly those are
/// left that have not timed out.
pub proof fn a_sweep_leaves_what_has_not_timed_out(
    tracker: ActorView,
    now: Timestamp,
    session: SessionView,
)
    requires
        tracker.wf(),
    ensures
        after_abandoning_all(
            tracker,
            timed_out_keys(tracker.sessions, now),
        ).sessions.contains(session) <==> tracker.sessions.contains(session) && !timed_out(
            session,
            now,
        ),
{
    let sessions = tracker.sessions;
    lemma_taken_out(tracker, timed_out_keys(sessions, now));
    a_sweep_finds_what_timed_out(sessions, now, session.key);
    if sessions.contains(session) {
        let at = choose|i: int| 0 <= i < sessions.len() && sessions[i] == session;
        assert(sessions[at].key == session.key);
        if timed_out_keys(sessions, now).contains(session.key) {
            let i = choose|i: int|
                0 <= i < sessions.len() && (#[trigger] sessions[i]).key == session.key
                    && timed_out(sessions[i], now);
            assert(i == at);
        }
    }
}

/// Once all sessions have been taken out, none is left.
pub proof fn a_drain_leaves_no_session(tracker: ActorView)
    requires
        tracker.wf(),
    ensures
        after_abandoning_all(
            tracker,
            tracker.sessions.map_values(|session: SessionView| session.key),
        ).sessions.len() == 0,
{
    let keys = tracker.sessions.map_values(|session: SessionView| session.key);
    let after = after_abandoning_all(tracker, keys);
    lemma_taken_out(tracker, keys);
    if after.sessions.len() > 0 {
        let s = after.sessions[0];
        assert(after.sessions.contains(s));
        let i = choose|i: int| 0 <= i < tracker.sessions.len() && tracker.sessions[i] == s;
        assert(keys[i] == s.key);
    }
}

/// Usage never goes back: no update lowers a token count of its session.
pub proof fn updates_never_lower_usage(
    tracker: ActorView,
    update: UpdateView,
    cost: CostView,
    now: Timestamp,
)
    requires
        tracker.wf(),
        has_key(tracker.sessions, update.key),
    ensures
        (lookup(tracker.after_update(update, cost, now).sessions, update.key)->0).tokens.at_least(
            (lookup(tracker.sessions, update.key)->0).tokens,
        ),
{
    let sessions = tracker.sessions;
    let when = instant_or(update.active_at, now);
    let session = lookup(sessions, update.key)->0;
    let amid = ActorView::updated_session(session, update, cost, when);
    lemma_lookup_replaced(sessions, amid, update.key);
    lemma_lookup_replaced(sessions, amid.finished_at(when), update.key);
    crate::laws::usage::tokens_never_fall(session, update.usage, cost);
    crate::laws::usage::tokens_never_fall(session.marked(when, ttl()), update.usage, cost);
}

proof fn lemma_the_same_update_changes_nothing(
    session: SessionView,
    after: SessionView,
    update: UpdateView,
    cost: CostView,
    at: Timestamp,
)
    requires
        session.wf(),
        after == if update.active == Some(false) {
            ActorView::updated_session(session, update, cost, at).finished_at(at)
        } else {
            ActorView::updated_session(session, update, cost, at)
        },
    ensures
        ActorView::updated_session(after, update, cost, at) == after,
        update.active == Some(false) ==> after.finished_at(at) == after,
{
    let marked = if session.active_at(at, ttl()) {
        session.marked(at, ttl())
    } else {
        session
    };
    crate::laws::usage::the_same_usage_counts_once(marked, after, update.usage, cost);
    if let Some(Json::Object(new)) = update.metadata {
        assert(new.union_prefer_right(new) =~= new);
        if let Some(Json::Object(existing)) = session.metadata {
            assert(existing.union_prefer_right(new).union_prefer_right(new)
                =~= existing.union_prefer_right(new));
        }
    }
    if after.active_at(at, ttl()) {
        assert(after.marked(at, ttl()) == after);
    }
}

/// An update that comes twice for the same time is the same as one that comes
/// once.
pub proof fn the_same_update_twice_is_one_update(
    tracker: ActorView,
    update: UpdateView,
    cost: CostView,
    now: Timestamp,
    again: Timestamp,
)
    requires
        tracker.wf(),
        update.active_at is Some || now == again,
    ensures
        tracker.after_update(update, cost, now).after_update(update, cost, again)
            == tracker.after_update(update, cost, now),
{
    let sessions = tracker.sessions;
    if has_key(sessions, update.key) {
        let at = instant_or(update.active_at, now);
        let session = lookup(sessions, update.key)->0;
        let amid = ActorView::updated_session(session, update, cost, at);
        let kept = if update.active == Some(false) {
            amid.finished_at(at)
        } else {
            amid
        };
        let after = tracker.after_update(update, cost, now);
        assert(session.wf());
        assert(after.sessions == replaced(sessions, kept));
        lemma_lookup_replaced(sessions, kept, update.key);
        lemma_the_same_update_changes_nothing(session, kept, update, cost, at);
        assert(after.sessions.update(place_of(after.sessions, update.key), kept)
            =~= after.sessions);
    }
}

/// The tracker after one session that has timed out was taken out, and the
/// writing of its summary, if there was one to record, had this outcome.
pub open spec fn after_sweeping_one(
    tracker: ActorView,
    key: KeyView,
    outcome: OutcomeView,
) -> ActorView {
    match tracker.abandoned(key, "timeout"@) {
        Some((session, summary)) => tracker.after_abandoning(key).after_timeout(session, outcome),
        None => tracker.after_abandoning(key),
    }
}

/// The tracker after a sweep that takes out the sessions with these keys one by
/// one, with these outcomes.
pub open spec fn after_sweep(
    tracker: ActorView,
    keys: Seq<KeyView>,
    outcomes: Seq<OutcomeView>,
) -> ActorView
    decreases keys.len(),
{
    if keys.len() == 0 {
        tracker
    } else {
        after_sweeping_one(
            after_sweep(tracker, keys.drop_last(), outcomes.drop_last()),
            keys.last(),
            outcomes.last(),
        )
    }
}

/// What is left of a session that a sweep took out, given the tracker with the
/// names of the summaries that were recorded so far: a session with one more failure, if
/// it had a summary to record, that failed, and it has not failed too often.
pub open spec fn left_by_sweep(
    session: SessionView,
    so_far: ActorView,
    outcome: OutcomeView,
) -> Option<SessionView> {
    if session.ever_active() && !so_far.is_recorded(abandoned_summary(session, "timeout"@))
        && outcome is Failed && session.abandoned_summary_failures + 1
        < ABANDONED_SUMMARY_MAX_FAILURES {
        Some(ActorView::failed_once_more(session.finished()))
    } else {
        None
    }
}

/// Whether the session is what a sweep left of the one with the `i`-th key.
pub open spec fn is_left_of(
    tracker: ActorView,
    keys: Seq<KeyView>,
    outcomes: Seq<OutcomeView>,
    i: int,
    session: SessionView,
) -> bool {
    left_by_sweep(
        lookup(tracker.sessions, keys[i])->0,
        after_sweep(tracker, keys.take(i), outcomes.take(i)),
        outcomes[i],
    ) == Some(session)
}

proof fn lemma_swept(tracker: ActorView, keys: Seq<KeyView>, outcomes: Seq<OutcomeView>)
    requires
        tracker.wf(),
        keys.len() == outcomes.len(),
        keys.no_duplicates(),
        forall|i: int| 0 <= i < keys.len() ==> has_key(tracker.sessions, #[trigger] keys[i]),
    ensures
        distinct_keys(after_sweep(tracker, keys, outcomes).sessions),
        forall|s: SessionView| #[trigger]
            after_sweep(tracker, keys, outcomes).sessions.contains(s) <==> (
            tracker.sessions.contains(s) && !keys.contains(s.key)) || exists|i: int|
                0 <= i < keys.len() && #[trigger] is_left_of(tracker, keys, outcomes, i, s),
    decreases keys.len(),
{
    if keys.len() > 0 {
        let n = keys.len() - 1;
        let key = keys[n];
        let outcome = outcomes[n];
        let fewer = keys.drop_last();
        let earlier = outcomes.drop_last();
        assert forall|i: int| 0 <= i < fewer.len() implies has_key(
            tracker.sessions,
            #[trigger] fewer[i],
        ) by {
            assert(fewer[i] == keys[i]);
        }
        assert forall|i: int, j: int| 0 <= i < fewer.len() && 0 <= j < fewer.len() && i
            != j implies fewer[i] != fewer[j] by {
            assert(fewer[i] == keys[i] && fewer[j] == keys[j]);
        }
        lemma_swept(tracker, fewer, earlier);
        let before = after_sweep(tracker, fewer, earlier);
        let after = after_sweep(tracker, keys, outcomes);
        let session = lookup(tracker.sessions, key)->0;
        assert(keys.take(n) =~= fewer && outcomes.take(n) =~= earlier);
        assert forall|i: int, s: SessionView| 0 <= i < n implies is_left_of(
            tracker,
            fewer,
            earlier,
            i,
            s,
        ) == #[trigger] is_left_of(tracker, keys, outcomes, i, s) by {
            assert(fewer.take(i) =~= keys.take(i));
            assert(earlier.take(i) =~= outcomes.take(i));
        }
        // What earlier steps left has other keys than this one.
        assert forall|i: int, s: SessionView| 0 <= i < n && #[trigger] is_left_of(
            tracker,
            keys,
            outcomes,
            i,
            s,
        ) implies s.key != key by {
            assert(has_key(tracker.sessions, keys[i]));
            assert(s.key == keys[i]);
        }
        // So the session is still as it was.
        assert(lookup(before.sessions, key) == Some(session)) by {
            assert(has_key(tracker.sessions, key));
            assert(session.key == key);
            assert(tracker.sessions.contains(session));
            if fewer.contains(key) {
                let k = choose|k: int| 0 <= k < fewer.len() && fewer[k] == key;
                assert(keys[k] == keys[n]);
            }
            assert(before.sessions.contains(session));
            let at = choose|i: int| 0 <= i < before.sessions.len() && before.sessions[i] == session;
            lemma_lookup(before.sessions, key, at);
        }
        lemma_without(before.sessions, key);
        let rest = without(before.sessions, key);
        let left = left_by_sweep(session, before, outcome);
        assert(has_key(tracker.sessions, key));
        assert(tracked_wf(session));
        assert(session.finished().key == key);
        assert(session.finished().abandoned_summary_failures == session.abandoned_summary_failures);
        if left is Some {
            assert(!has_key(rest, key));
            assert(without(rest, key) == rest);
            assert(after.sessions == rest.push(left->0));
            crate::actor::lemma_push_keeps_keys_distinct(rest, left->0);
        } else {
            assert(after.sessions == rest);
        }
        assert forall|s: SessionView| #[trigger] after.sessions.contains(s) <==> (
        tracker.sessions.contains(s) && !keys.contains(s.key)) || exists|i: int|
            0 <= i < keys.len() && #[trigger] is_left_of(tracker, keys, outcomes, i, s) by {
            assert(is_left_of(tracker, keys, outcomes, n, s) == (left == Some(s)));
            assert(keys.contains(s.key) == (fewer.contains(s.key) || s.key == key)) by {
                if keys.contains(s.key) {
                    let k = choose|k: int| 0 <= k < keys.len() && keys[k] == s.key;
                    if k < n {
                        assert(fewer[k] == s.key);
                    }
                }
                if fewer.contains(s.key) {
                    let k = choose|k: int| 0 <= k < fewer.len() && fewer[k] == s.key;
                    assert(keys[k] == s.key);
                }
                if s.key == key {
                    assert(keys[n] == s.key);
                }
            }
            if left is Some {
                assert(after.sessions.contains(s) == (rest.contains(s) || s == left->0)) by {
                    let pushed = rest.push(left->0);
                    if pushed.contains(s) {
                        let k = choose|k: int| 0 <= k < pushed.len() && pushed[k] == s;
                        if k < rest.len() {
                            assert(rest[k] == s);
                        }
                    }
                    if rest.contains(s) {
                        let k = choose|k: int| 0 <= k < rest.len() && rest[k] == s;
                        assert(pushed[k] == s);
                    }
                    assert(pushed[rest.len() as int] == left->0);
                }
            }
            assert(rest.contains(s) == (before.sessions.contains(s) && s.key != key));
            if exists|i: int|
                0 <= i < fewer.len() && #[trigger] is_left_of(tracker, fewer, earlier, i, s) {
                let i = choose|i: int|
                    0 <= i < fewer.len() && #[trigger] is_left_of(tracker, fewer, earlier, i, s);
                assert(is_left_of(tracker, keys, outcomes, i, s));
            }
            if exists|i: int|
                0 <= i < keys.len() && #[trigger] is_left_of(tracker, keys, outcomes, i, s) {
                let i = choose|i: int|
                    0 <= i < keys.len() && #[trigger] is_left_of(tracker, keys, outcomes, i, s);
                if i < n {
                    assert(is_left_of(tracker, fewer, earlier, i, s));
                }
            }
        }
    }
}

pub(crate) proof fn lemma_timed_out_keys(sessions: Seq<SessionView>, now: Timestamp)
    requires
        distinct_keys(sessions),
    ensures
        timed_out_keys(sessions, now).no_duplicates(),
        forall|i: int|
            0 <= i < timed_out_keys(sessions, now).len() ==> has_key(
                sessions,
                #[trigger] timed_out_keys(sessions, now)[i],
            ),
    decreases sessions.len(),
{
    let keys = timed_out_keys(sessions, now);
    assert forall|i: int| 0 <= i < keys.len() implies has_key(sessions, #[trigger] keys[i]) by {
        assert(keys.contains(keys[i]));
        a_sweep_finds_what_timed_out(sessions, now, keys[i]);
    }
    if sessions.len() > 0 {
        let rest = sessions.drop_last();
        let fewer = timed_out_keys(rest, now);
        assert forall|i: int, j: int| 0 <= i < j < rest.len() implies (#[trigger] rest[i]).key != (
        #[trigger] rest[j]).key by {
            assert(rest[i] == sessions[i] && rest[j] == sessions[j]);
        }
        lemma_timed_out_keys(rest, now);
        assert forall|i: int, j: int| 0 <= i < keys.len() && 0 <= j < keys.len() && i
            != j implies keys[i] != keys[j] by {
            let (low, high) = if i < j {
                (i, j)
            } else {
                (j, i)
            };
            assert(keys[low] == fewer[low]);
            if high < fewer.len() {
                assert(keys[high] == fewer[high]);
            } else {
                assert(has_key(rest, fewer[low]));
                let at = place_of(rest, fewer[low]);
                assert(sessions[at].key == fewer[low]);
                assert(sessions[sessions.len() - 1].key == keys[high]);
            }
        }
    }
}

/// A whole sweep, whatever becomes of the summaries: exactly those sessions are
/// left that have not timed out, and those that had a summary to record, could
/// not record it, and have not failed too often; these have one more failure.
pub proof fn a_sweep_leaves_what_is_still_to_do(
    tracker: ActorView,
    now: Timestamp,
    outcomes: Seq<OutcomeView>,
    session: SessionView,
)
    requires
        tracker.wf(),
        outcomes.len() == timed_out_keys(tracker.sessions, now).len(),
    ensures
        ({
            let keys = timed_out_keys(tracker.sessions, now);
            after_sweep(tracker, keys, outcomes).sessions.contains(session) <==> (
            tracker.sessions.contains(session) && !timed_out(session, now)) || exists|i: int|
                0 <= i < keys.len() && #[trigger] is_left_of(tracker, keys, outcomes, i, session)
        }),
{
    let sessions = tracker.sessions;
    let keys = timed_out_keys(sessions, now);
    lemma_timed_out_keys(sessions, now);
    lemma_swept(tracker, keys, outcomes);
    lemma_taken_out(tracker, keys);
    a_sweep_leaves_what_has_not_timed_out(tracker, now, session);
}

/// The tracker after the sessions with these keys were taken out one by one for
/// the reason given, with these outcomes.
pub open spec fn after_drain(
    tracker: ActorView,
    keys: Seq<KeyView>,
    reason: Seq<char>,
    outcomes: Seq<OutcomeView>,
) -> ActorView
    decreases keys.len(),
{
    if keys.len() == 0 {
        tracker
    } else {
        let before = after_drain(tracker, keys.drop_last(), reason, outcomes.drop_last());
        let taken = before.after_abandoning(keys.last());
        match before.abandoned(keys.last(), reason) {
            Some(_) => taken.settled(outcomes.last()),
            None => taken,
        }
    }
}

proof fn lemma_drained(
    tracker: ActorView,
    keys: Seq<KeyView>,
    reason: Seq<char>,
    outcomes: Seq<OutcomeView>,
)
    ensures
        after_drain(tracker, keys, reason, outcomes).sessions == after_abandoning_all(
            tracker,
            keys,
        ).sessions,
    decreases keys.len(),
{
    if keys.len() > 0 {
        lemma_drained(tracker, keys.drop_last(), reason, outcomes.drop_last());
    }
}

/// A whole drain, whatever becomes of the summaries, leaves no session.
pub proof fn a_drain_with_any_outcomes_leaves_no_session(
    tracker: ActorView,
    reason: Seq<char>,
    outcomes: Seq<OutcomeView>,
)
    requires
        tracker.wf(),
        outcomes.len() == tracker.sessions.len(),
    ensures
        after_drain(
            tracker,
            tracker.sessions.map_values(|session: SessionView| session.key),
            reason,
            outcomes,
        ).sessions.len() == 0,
{
    let keys = tracker.sessions.map_values(|session: SessionView| session.key);
    lemma_drained(tracker, keys, reason, outcomes);
    a_drain_leaves_no_session(tracker);
}

/// Whether the total cost of every session is the sum of its costs by model.
pub open spec fn totals_are_sums(
    sessions: Seq<SessionView>,
    sum: spec_fn(Seq<u64>) -> CostView,
) -> bool {
    forall|i: int| 0 <= i < sessions.len() ==> total_is_sum(#[trigger] sessions[i], sum)
}

proof fn lemma_totals_without(
    sessions: Seq<SessionView>,
    key: KeyView,
    sum: spec_fn(Seq<u64>) -> CostView,
)
    requires
        totals_are_sums(sessions, sum),
    ensures
        totals_are_sums(without(sessions, key), sum),
{
    let after = without(sessions, key);
    assert forall|i: int| 0 <= i < after.len() implies total_is_sum(#[trigger] after[i], sum) by {
        if has_key(sessions, key) && i >= place_of(sessions, key) {
            assert(after[i] == sessions[i + 1]);
        } else {
            assert(after[i] == sessions[i]);
        }
    }
}

/// The total cost of every session always matches its usage by model, however
/// amounts are added up, whatever requests, ends, sweeps and drains there are.
pub proof fn total_costs_match_in_every_session(
    tracker: ActorView,
    sum: spec_fn(Seq<u64>) -> CostView,
    start: StartView,
    update: UpdateView,
    heartbeat: HeartbeatView,
    key: KeyView,
    outcome: OutcomeView,
    session: SessionView,
    cost: CostView,
    at: Timestamp,
    name: Seq<char>,
)
    requires
        totals_are_sums(tracker.sessions, sum),
        total_is_sum(session, sum),
        has_key(tracker.sessions, update.key) ==> cost == sum(
            (lookup(tracker.sessions, update.key)->0).candidate_costs(update.usage.model_usage),
        ),
    ensures
        totals_are_sums(tracker.after_start(start, at, name).sessions, sum),
        totals_are_sums(tracker.after_update(update, cost, at).sessions, sum),
        totals_are_sums(tracker.after_heartbeat(heartbeat, at).sessions, sum),
        totals_are_sums(tracker.after_end(key, outcome).sessions, sum),
        totals_are_sums(tracker.after_abandoning(key).sessions, sum),
        totals_are_sums(tracker.after_timeout(session, outcome).sessions, sum),
{
    let sessions = tracker.sessions;
    lemma_totals_without(sessions, start.key, sum);
    lemma_totals_without(sessions, key, sum);
    lemma_totals_without(sessions, session.key, sum);
    if has_key(sessions, start.key) {
        let known = lookup(sessions, start.key)->0;
        assert(total_is_sum(known, sum));
        assert(total_is_sum(known.restarted(start), sum));
    }
    assert(total_is_sum(SessionView::started(start, at, name), sum));
    if has_key(sessions, update.key) {
        let known = lookup(sessions, update.key)->0;
        let when = instant_or(update.active_at, at);
        let amid = ActorView::updated_session(known, update, cost, when);
        assert(total_is_sum(known, sum));
        assert(known.marked(when, ttl()).candidate_costs(update.usage.model_usage)
            == known.candidate_costs(update.usage.model_usage));
        assert(total_is_sum(amid, sum));
        assert(total_is_sum(amid.finished_at(when), sum));
    }
    if has_key(sessions, heartbeat.key) {
        let known = lookup(sessions, heartbeat.key)->0;
        let when = instant_or(heartbeat.heartbeat_at, at);
        assert(total_is_sum(known, sum));
        assert(total_is_sum(known.marked(when, ttl()), sum));
    }
    assert(total_is_sum(ActorView::failed_once_more(session), sum));
}

} // verus!
