//! Laws of the heartbeat of live activity.
use vstd::prelude::*;

use crate::actor::{distinct_keys, has_key, lookup, place_of, ttl, ActorView};
use crate::events::{EventView, HeartbeatView, KeyView};
use crate::heartbeat::{
    active_sessions, aggregate_data, aggregate_heartbeat, agents_of, insert_session, key_le,
    models_of, project_dirs_of, projects_of, selected_models, session_entries, single_or_many, substituted,
};
use crate::json::{text_list, Json};
use crate::laws::basics::{
    parts_at, text_before, texts_are_ordered_by_their_first_difference,
};
use crate::laws::fields::{field, fingerprint, has_optional_text, has_text};
use crate::session::{instant_or, SessionView};
use crate::text::{
    sorted_distinct, sorted_distinct_holds_each_text_once,text_order_is_antisymmetric, text_order_is_total, text_order_is_transitive};
use crate::time::{TimeDelta, Timestamp};

verus! {

/// Whether the sessions are in order of their keys.
pub open spec fn in_order(sessions: Seq<SessionView>) -> bool {
    forall|i: int, j: int|
        0 <= i < j < sessions.len() ==> key_le(
            (#[trigger] sessions[i]).key,
            (#[trigger] sessions[j]).key,
        )
}

proof fn lemma_key_order(a: KeyView, b: KeyView, c: KeyView)
    ensures
        key_le(a, b) || key_le(b, a),
        key_le(a, b) && key_le(b, c) ==> key_le(a, c),
{
    text_order_is_total(a.code_agent, b.code_agent);
    text_order_is_total(a.session_id, b.session_id);
    if key_le(a, b) && key_le(b, c) {
        if a.code_agent == b.code_agent && b.code_agent == c.code_agent {
            text_order_is_transitive(a.session_id, b.session_id, c.session_id);
        } else if a.code_agent == c.code_agent {
            text_order_is_antisymmetric(a.code_agent, b.code_agent);
        } else if a.code_agent != b.code_agent && b.code_agent != c.code_agent {
            text_order_is_transitive(a.code_agent, b.code_agent, c.code_agent);
        }
    }
}

proof fn lemma_insert_session(list: Seq<SessionView>, session: SessionView)
    ensures
        insert_session(list, session).to_multiset() == list.to_multiset().insert(session),
        insert_session(list, session).len() == list.len() + 1,
        in_order(list) ==> in_order(insert_session(list, session)),
    decreases list.len(),
{
    broadcast use vstd::seq_lib::group_to_multiset_ensures;

    let after = insert_session(list, session);
    if list.len() == 0 {
        assert(after =~= list.push(session));
    } else if key_le(list.last().key, session.key) {
        if in_order(list) {
            assert forall|i: int, j: int| 0 <= i < j < after.len() implies key_le(
                (#[trigger] after[i]).key,
                (#[trigger] after[j]).key,
            ) by {
                assert(after[i] == list[i]);
                if j < list.len() {
                    assert(after[j] == list[j]);
                } else if i < list.len() - 1 {
                    assert(key_le(list[i].key, list[list.len() - 1].key));
                    lemma_key_order(list[i].key, list.last().key, session.key);
                }
            }
        }
    } else {
        let rest = list.drop_last();
        lemma_insert_session(rest, session);
        let shorter = insert_session(rest, session);
        assert(rest.push(list.last()) =~= list);
        assert(after.to_multiset() =~= list.to_multiset().insert(session));
        if in_order(list) {
            assert(in_order(rest)) by {
                assert forall|i: int, j: int| 0 <= i < j < rest.len() implies key_le(
                    (#[trigger] rest[i]).key,
                    (#[trigger] rest[j]).key,
                ) by {
                    assert(rest[i] == list[i] && rest[j] == list[j]);
                }
            }
            lemma_key_order(list.last().key, session.key, session.key);
            assert forall|i: int, j: int| 0 <= i < j < after.len() implies key_le(
                (#[trigger] after[i]).key,
                (#[trigger] after[j]).key,
            ) by {
                assert(after[i] == shorter[i]);
                if j < shorter.len() {
                    assert(after[j] == shorter[j]);
                } else {
                    assert(shorter.to_multiset().contains(shorter[i]));
                    assert(rest.to_multiset().insert(session).contains(shorter[i]));
                    if shorter[i] != session {
                        assert(rest.contains(shorter[i]));
                        let k = choose|k: int| 0 <= k < rest.len() && rest[k] == shorter[i];
                        assert(list[k] == rest[k]);
                        assert(key_le(list[k].key, list[list.len() - 1].key));
                    }
                }
            }
        }
    }
}

/// A heartbeat tells of exactly the sessions that are active at its time, each
/// of them once, in order of their keys.
pub proof fn live_sessions_are_the_active_ones_in_order(
    sessions: Seq<SessionView>,
    other: Option<SessionView>,
    at: Timestamp,
    ttl: TimeDelta,
)
    ensures
        active_sessions(sessions, other, at, ttl).to_multiset() == sessions.map_values(
            |s: SessionView| substituted(s, other),
        ).filter(|s: SessionView| s.active_at(at, ttl)).to_multiset(),
        in_order(active_sessions(sessions, other, at, ttl)),
    decreases sessions.len(),
{
    broadcast use vstd::seq_lib::group_to_multiset_ensures;

    let substitute = |s: SessionView| substituted(s, other);
    let active = |s: SessionView| s.active_at(at, ttl);
    let all = sessions.map_values(substitute);
    reveal(Seq::filter);
    if sessions.len() > 0 {
        let rest = sessions.drop_last();
        live_sessions_are_the_active_ones_in_order(rest, other, at, ttl);
        assert(all.drop_last() =~= rest.map_values(substitute));
        lemma_insert_session(
            active_sessions(rest, other, at, ttl),
            substituted(sessions.last(), other),
        );
    } else {
        assert(all.filter(active) =~= active_sessions(sessions, other, at, ttl));
    }
}

proof fn lemma_active_session_is_live(
    sessions: Seq<SessionView>,
    other: Option<SessionView>,
    at: Timestamp,
    ttl: TimeDelta,
    i: int,
)
    requires
        0 <= i < sessions.len(),
        substituted(sessions[i], other).active_at(at, ttl),
    ensures
        active_sessions(sessions, other, at, ttl).contains(substituted(sessions[i], other)),
    decreases sessions.len(),
{
    broadcast use vstd::seq_lib::group_to_multiset_ensures;

    let rest = sessions.drop_last();
    let fewer = active_sessions(rest, other, at, ttl);
    let session = substituted(sessions[i], other);
    let last = substituted(sessions.last(), other);
    lemma_insert_session(fewer, last);
    if i < rest.len() {
        assert(rest[i] == sessions[i]);
        lemma_active_session_is_live(rest, other, at, ttl, i);
        assert(fewer.to_multiset().contains(session));
    }
    if last.active_at(at, ttl) {
        assert(insert_session(fewer, last).to_multiset().contains(session));
    }
}

proof fn lemma_live_session_is_active(
    sessions: Seq<SessionView>,
    other: Option<SessionView>,
    at: Timestamp,
    ttl: TimeDelta,
)
    requires
        active_sessions(sessions, other, at, ttl).len() > 0,
    ensures
        exists|i: int|
            0 <= i < sessions.len() && substituted(#[trigger] sessions[i], other).active_at(at, ttl),
    decreases sessions.len(),
{
    let rest = sessions.drop_last();
    if substituted(sessions[sessions.len() - 1], other).active_at(at, ttl) {
    } else {
        lemma_live_session_is_active(rest, other, at, ttl);
        let i = choose|i: int|
            0 <= i < rest.len() && substituted(#[trigger] rest[i], other).active_at(at, ttl);
        assert(sessions[i] == rest[i]);
    }
}

/// There is a heartbeat if, and only if, some session is active. It has the time
/// that it is about, and no length.
pub proof fn there_is_a_heartbeat_while_a_session_is_active(
    sessions: Seq<SessionView>,
    other: Option<SessionView>,
    at: Timestamp,
    ttl: TimeDelta,
)
    ensures
        ({
            let event = aggregate_heartbeat(sessions, other, at, ttl);
            &&& event is Some <==> exists|i: int|
                0 <= i < sessions.len() && substituted(#[trigger] sessions[i], other).active_at(
                    at,
                    ttl,
                )
            &&& event is Some ==> (event->0).timestamp == at && (event->0).duration.nanos == 0
        }),
{
    let live = active_sessions(sessions, other, at, ttl);
    if live.len() > 0 {
        lemma_live_session_is_active(sessions, other, at, ttl);
    }
    if exists|i: int|
        0 <= i < sessions.len() && substituted(#[trigger] sessions[i], other).active_at(at, ttl) {
        let i = choose|i: int|
            0 <= i < sessions.len() && substituted(#[trigger] sessions[i], other).active_at(at, ttl);
        lemma_active_session_is_live(sessions, other, at, ttl, i);
    }
}

/// A heartbeat of a session that is known is always sent on, with the time at
/// which the agent sampled it, and this session is among those it tells of.
pub proof fn a_heartbeat_of_a_known_session_is_sent(
    tracker: ActorView,
    req: HeartbeatView,
    now: Timestamp,
)
    requires
        tracker.wf(),
        has_key(tracker.sessions, req.key),
        now.wf(),
        req.heartbeat_at is Some ==> (req.heartbeat_at->0).wf(),
    ensures
        ({
            let at = instant_or(req.heartbeat_at, now);
            let event = tracker.session_heartbeat(req, now);
            &&& event is Some
            &&& (event->0).timestamp == at
            &&& active_sessions(
                tracker.after_heartbeat(req, now).sessions,
                None,
                at,
                ttl(),
            ).contains((lookup(tracker.sessions, req.key)->0).marked(at, ttl()))
        }),
{
    let at = instant_or(req.heartbeat_at, now);
    let place = place_of(tracker.sessions, req.key);
    let session = lookup(tracker.sessions, req.key)->0;
    let after = tracker.after_heartbeat(req, now).sessions;
    assert(tracker.sessions[place].wf());
    assert(after[place] == session.marked(at, ttl()));
    assert(session.marked(at, ttl()).active_at(at, ttl()));
    lemma_active_session_is_live(after, None, at, ttl(), place);
}

/// A heartbeat says that there is activity, in which projects, by which agents
/// and in how many sessions, and names each of them.
pub proof fn a_heartbeat_tells_of_its_sessions(sessions: Seq<SessionView>)
    requires
        sessions.len() <= u64::MAX,
    ensures
        ({
            let data = aggregate_data(sessions);
            &&& field(data, "status"@) == Some(Json::Text("active"@))
            &&& field(data, "language"@) == Some(Json::Text("code-agent"@))
            &&& field(data, "project"@) == Some(Json::Text(single_or_many(projects_of(sessions))))
            &&& field(data, "file"@) == Some(Json::Text(single_or_many(project_dirs_of(sessions))))
            &&& field(data, "active_session_count"@) == Some(Json::Unsigned(sessions.len() as u64))
            &&& field(data, "code_agents"@) == Some(text_list(agents_of(sessions)))
            &&& field(data, "projects"@) == Some(text_list(projects_of(sessions)))
            &&& field(data, "project_dirs"@) == Some(text_list(project_dirs_of(sessions)))
            &&& field(data, "models"@) == if models_of(sessions).len() > 0 {
                Some(text_list(models_of(sessions)))
            } else {
                None
            }
            &&& field(data, "sessions"@) == Some(
                Json::List(sessions.map_values(|s: SessionView| Json::Object(session_entries(s)))),
            )
        }),
{
    lemma_names_differ();
}

/// No two fields have the same name.
proof fn lemma_names_differ()
    ensures
        fingerprint("status"@) == (6nat, 's', 't', 'a', 's'),
        fingerprint("language"@) == (8nat, 'l', 'a', 'n', 'e'),
        fingerprint("project"@) == (7nat, 'p', 'r', 'o', 't'),
        fingerprint("file"@) == (4nat, 'f', 'i', 'l', 'e'),
        fingerprint("active_session_count"@) == (20nat, 'a', 'c', 't', 't'),
        fingerprint("code_agents"@) == (11nat, 'c', 'o', 'd', 's'),
        fingerprint("projects"@) == (8nat, 'p', 'r', 'o', 's'),
        fingerprint("project_dirs"@) == (12nat, 'p', 'r', 'o', 's'),
        fingerprint("models"@) == (6nat, 'm', 'o', 'd', 's'),
        fingerprint("sessions"@) == (8nat, 's', 'e', 's', 's'),
{
    reveal_strlit("status");
    reveal_strlit("language");
    reveal_strlit("project");
    reveal_strlit("file");
    reveal_strlit("active_session_count");
    reveal_strlit("code_agents");
    reveal_strlit("projects");
    reveal_strlit("project_dirs");
    reveal_strlit("models");
    reveal_strlit("sessions");
}

/// Whether the list holds each text once and in order, and exactly those texts
/// that some session has.
pub open spec fn lists_texts_of(
    list: Seq<Seq<char>>,
    sessions: Seq<SessionView>,
    text: spec_fn(SessionView) -> Option<Seq<char>>,
) -> bool {
    &&& forall|i: int, j: int|
        0 <= i < j < list.len() ==> text_before(#[trigger] list[i], #[trigger] list[j])
    &&& forall|t: Seq<char>| #[trigger]
        list.contains(t) <==> exists|i: int|
            0 <= i < sessions.len() && text(#[trigger] sessions[i]) == Some(t)
}

/// Whether the field holds, in order and without repeats, the texts that the
/// sessions have.
pub open spec fn has_texts_of(
    data: Map<Seq<char>, Json>,
    name: Seq<char>,
    sessions: Seq<SessionView>,
    text: spec_fn(SessionView) -> Option<Seq<char>>,
) -> bool {
    exists|list: Seq<Seq<char>>| #[trigger]
        lists_texts_of(list, sessions, text) && data.contains_key(name) && data[name]
            == Json::List(list.map_values(|t: Seq<char>| Json::Text(t)))
}

/// Whether the field holds the text that all sessions have, and `multiple` where
/// they do not all have the same.
pub open spec fn has_common_text(
    data: Map<Seq<char>, Json>,
    name: Seq<char>,
    sessions: Seq<SessionView>,
    text: spec_fn(SessionView) -> Option<Seq<char>>,
) -> bool {
    if forall|i: int| 0 <= i < sessions.len() ==> text(#[trigger] sessions[i]) == text(sessions[0]) {
        has_optional_text(data, name, text(sessions[0]))
    } else {
        has_text(data, name, "multiple"@)
    }
}

/// Whether the object tells which session it is of, in which project, and with
/// which model, and nothing else.
pub open spec fn tells_live_session(object: Map<Seq<char>, Json>, session: SessionView) -> bool {
    &&& has_text(object, "code_agent"@, session.key.code_agent)
    &&& has_text(object, "session_id"@, session.key.session_id)
    &&& has_optional_text(object, "session_instance_id"@, session.key.session_instance_id)
    &&& has_text(object, "project"@, session.project_name)
    &&& has_text(object, "project_dir"@, session.project_dir)
    &&& has_optional_text(object, "model"@, session.model)
    &&& forall|name: Seq<char>| #[trigger]
        object.contains_key(name) ==> name == "code_agent"@ || name == "session_id"@ || name
            == "session_instance_id"@ || name == "project"@ || name == "project_dir"@ || name
            == "model"@
}

/// Whether the data of a heartbeat tells of these sessions, one by one and
/// together.
pub open spec fn tells_live_sessions(
    data: Map<Seq<char>, Json>,
    sessions: Seq<SessionView>,
) -> bool {
    let agent = |s: SessionView| Some(s.key.code_agent);
    let project = |s: SessionView| Some(s.project_name);
    let dir = |s: SessionView| Some(s.project_dir);
    let model = |s: SessionView| s.model;
    &&& has_text(data, "status"@, "active"@)
    &&& has_text(data, "language"@, "code-agent"@)
    &&& has_common_text(data, "project"@, sessions, project)
    &&& has_common_text(data, "file"@, sessions, dir)
    &&& data.contains_key("active_session_count"@)
    &&& data["active_session_count"@] == Json::Unsigned(sessions.len() as u64)
    &&& has_texts_of(data, "code_agents"@, sessions, agent)
    &&& has_texts_of(data, "projects"@, sessions, project)
    &&& has_texts_of(data, "project_dirs"@, sessions, dir)
    &&& if exists|i: int| 0 <= i < sessions.len() && (#[trigger] sessions[i]).model is Some {
        has_texts_of(data, "models"@, sessions, model)
    } else {
        !data.contains_key("models"@)
    }
    &&& data.contains_key("sessions"@)
    &&& data["sessions"@] is List
    &&& data["sessions"@]->List_0.len() == sessions.len()
    &&& forall|i: int|
        0 <= i < sessions.len() ==> {
            &&& (#[trigger] data["sessions"@]->List_0[i]) is Object
            &&& tells_live_session(data["sessions"@]->List_0[i]->Object_0, sessions[i])
        }
    &&& forall|name: Seq<char>| #[trigger]
        data.contains_key(name) ==> name == "status"@ || name == "language"@ || name == "project"@
            || name == "file"@ || name == "active_session_count"@ || name == "code_agents"@ || name
            == "projects"@ || name == "project_dirs"@ || name == "models"@ || name == "sessions"@
}

proof fn lemma_sorted(texts: Seq<Seq<char>>)
    ensures
        forall|i: int, j: int|
            0 <= i < j < sorted_distinct(texts).len() ==> text_before(
                #[trigger] sorted_distinct(texts)[i],
                #[trigger] sorted_distinct(texts)[j],
            ),
        forall|t: Seq<char>| #[trigger] sorted_distinct(texts).contains(t) <==> texts.contains(t),
{
    let list = sorted_distinct(texts);
    sorted_distinct_holds_each_text_once(texts);
    assert forall|i: int, j: int| 0 <= i < j < list.len() implies text_before(
        #[trigger] list[i],
        #[trigger] list[j],
    ) by {
        texts_are_ordered_by_their_first_difference(list[i], list[j]);
    }
}

proof fn lemma_lists_texts(
    sessions: Seq<SessionView>,
    get: spec_fn(SessionView) -> Seq<char>,
    text: spec_fn(SessionView) -> Option<Seq<char>>,
)
    requires
        forall|s: SessionView| #[trigger] text(s) == Some(get(s)),
    ensures
        lists_texts_of(sorted_distinct(sessions.map_values(get)), sessions, text),
        sessions.len() > 0 ==> single_or_many(sorted_distinct(sessions.map_values(get))) == if (
        forall|i: int|
            0 <= i < sessions.len() ==> text(#[trigger] sessions[i]) == text(sessions[0])) {
            get(sessions[0])
        } else {
            "multiple"@
        },
{
    let texts = sessions.map_values(get);
    let list = sorted_distinct(texts);
    lemma_sorted(texts);
    assert forall|t: Seq<char>| #[trigger] list.contains(t) <==> exists|i: int|
        0 <= i < sessions.len() && text(#[trigger] sessions[i]) == Some(t) by {
        if list.contains(t) {
            let i = choose|i: int| 0 <= i < texts.len() && texts[i] == t;
            assert(text(sessions[i]) == Some(get(sessions[i])));
        }
        if exists|i: int| 0 <= i < sessions.len() && text(#[trigger] sessions[i]) == Some(t) {
            let i = choose|i: int|
                0 <= i < sessions.len() && text(#[trigger] sessions[i]) == Some(t);
            assert(texts[i] == t);
        }
    }
    if sessions.len() > 0 {
        let first = get(sessions[0]);
        assert(texts[0] == first);
        assert(texts.contains(first));
        assert(list.contains(first));
        if forall|i: int|
            0 <= i < sessions.len() ==> text(#[trigger] sessions[i]) == text(sessions[0]) {
            assert forall|k: int| 0 <= k < list.len() implies list[k] == first by {
                assert(list.contains(list[k]));
                let i = choose|i: int| 0 <= i < texts.len() && texts[i] == list[k];
                assert(text(sessions[i]) == text(sessions[0]));
            }
            if list.len() > 1 {
                assert(text_before(list[0], list[1]));
                let k = choose|k: int| #[trigger] parts_at(list[0], list[1], k);
            }
        } else {
            let i = choose|i: int|
                0 <= i < sessions.len() && text(#[trigger] sessions[i]) != text(sessions[0]);
            assert(texts[i] == get(sessions[i]));
            assert(texts.contains(get(sessions[i])));
            assert(list.contains(get(sessions[i])));
            if list.len() == 1 {
                assert(list[0] == first);
                assert(list[0] == get(sessions[i]));
            }
        }
    }
}

proof fn lemma_selected_models(sessions: Seq<SessionView>, t: Seq<char>)
    ensures
        selected_models(sessions).contains(t) <==> exists|i: int|
            0 <= i < sessions.len() && (#[trigger] sessions[i]).model == Some(t),
    decreases sessions.len(),
{
    let list = selected_models(sessions);
    if sessions.len() > 0 {
        let rest = sessions.drop_last();
        let fewer = selected_models(rest);
        lemma_selected_models(rest, t);
        if list.contains(t) {
            let k = choose|k: int| 0 <= k < list.len() && list[k] == t;
            if k < fewer.len() {
                assert(fewer[k] == t);
                let i = choose|i: int| 0 <= i < rest.len() && (#[trigger] rest[i]).model == Some(t);
                assert(sessions[i] == rest[i]);
            } else {
                assert(sessions[sessions.len() - 1].model == Some(t));
            }
        }
        if exists|i: int| 0 <= i < sessions.len() && (#[trigger] sessions[i]).model == Some(t) {
            let i = choose|i: int|
                0 <= i < sessions.len() && (#[trigger] sessions[i]).model == Some(t);
            if i < rest.len() {
                assert(rest[i].model == Some(t));
                let k = choose|k: int| 0 <= k < fewer.len() && fewer[k] == t;
                assert(list[k] == t);
            } else {
                assert(list[list.len() - 1] == t);
            }
        }
    }
}

proof fn lemma_live_session_is_told(session: SessionView)
    ensures
        tells_live_session(session_entries(session), session),
{
    lemma_names_differ();
    reveal_strlit("code_agent");
    reveal_strlit("session_id");
    reveal_strlit("session_instance_id");
    reveal_strlit("project_dir");
    reveal_strlit("model");
    assert(fingerprint("code_agent"@) == (10nat, 'c', 'o', 'd', 't'));
    assert(fingerprint("session_id"@) == (10nat, 's', 'e', 's', 'd'));
    assert(fingerprint("session_instance_id"@) == (19nat, 's', 'e', 's', 'd'));
    assert(fingerprint("project_dir"@) == (11nat, 'p', 'r', 'o', 'r'));
    assert(fingerprint("model"@) == (5nat, 'm', 'o', 'd', 'l'));
}

/// The data of a heartbeat tells of its sessions field by field: what all have in
/// common or `multiple`, how many there are, which agents, projects, directories
/// and models they have, each once and in order, and of each session what it is.
pub proof fn a_heartbeat_tells_of_each_session(sessions: Seq<SessionView>)
    requires
        0 < sessions.len() <= u64::MAX,
    ensures
        tells_live_sessions(aggregate_data(sessions), sessions),
{
    let data = aggregate_data(sessions);
    let agent = |s: SessionView| Some(s.key.code_agent);
    let project = |s: SessionView| Some(s.project_name);
    let dir = |s: SessionView| Some(s.project_dir);
    let model = |s: SessionView| s.model;
    a_heartbeat_tells_of_its_sessions(sessions);
    lemma_lists_texts(sessions, |s: SessionView| s.key.code_agent, agent);
    lemma_lists_texts(sessions, |s: SessionView| s.project_name, project);
    lemma_lists_texts(sessions, |s: SessionView| s.project_dir, dir);
    assert(lists_texts_of(agents_of(sessions), sessions, agent));
    assert(lists_texts_of(projects_of(sessions), sessions, project));
    assert(lists_texts_of(project_dirs_of(sessions), sessions, dir));
    assert(field(data, "code_agents"@) == Some(text_list(agents_of(sessions))));
    assert(field(data, "projects"@) == Some(text_list(projects_of(sessions))));
    assert(field(data, "project_dirs"@) == Some(text_list(project_dirs_of(sessions))));
    lemma_sorted(selected_models(sessions));
    let models = models_of(sessions);
    assert forall|t: Seq<char>| #[trigger] models.contains(t) <==> exists|i: int|
        0 <= i < sessions.len() && model(#[trigger] sessions[i]) == Some(t) by {
        lemma_selected_models(sessions, t);
        if models.contains(t) {
            let i = choose|i: int| 0 <= i < sessions.len() && (#[trigger] sessions[i]).model == Some(
                t,
            );
            assert(model(sessions[i]) == Some(t));
        }
        if exists|i: int| 0 <= i < sessions.len() && model(#[trigger] sessions[i]) == Some(t) {
            let i = choose|i: int|
                0 <= i < sessions.len() && model(#[trigger] sessions[i]) == Some(t);
            assert(sessions[i].model == Some(t));
        }
    }
    assert(lists_texts_of(models, sessions, model));
    if exists|i: int| 0 <= i < sessions.len() && (#[trigger] sessions[i]).model is Some {
        let i = choose|i: int| 0 <= i < sessions.len() && (#[trigger] sessions[i]).model is Some;
        assert(model(sessions[i]) == Some(sessions[i].model->0));
        assert(models.contains(sessions[i].model->0));
        assert(field(data, "models"@) == Some(text_list(models)));
    } else if models.len() > 0 {
        assert(models.contains(models[0]));
        let i = choose|i: int|
            0 <= i < sessions.len() && model(#[trigger] sessions[i]) == Some(models[0]);
        assert(sessions[i].model is Some);
    }
    let items = sessions.map_values(|s: SessionView| Json::Object(session_entries(s)));
    assert(field(data, "sessions"@) == Some(Json::List(items)));
    assert forall|i: int| 0 <= i < sessions.len() implies {
        &&& (#[trigger] data["sessions"@]->List_0[i]) is Object
        &&& tells_live_session(data["sessions"@]->List_0[i]->Object_0, sessions[i])
    } by {
        assert(items[i] == Json::Object(session_entries(sessions[i])));
        lemma_live_session_is_told(sessions[i]);
    }
}

/// Whether the session is active at the time: it has a current period of
/// activity, and its last sign is no longer ago than `ttl`.
pub open spec fn is_live(session: SessionView, at: Timestamp, ttl: TimeDelta) -> bool {
    &&& session.active_started_at is Some
    &&& session.last_active_at is Some
    &&& at.nanos_since(session.last_active_at->0) <= ttl.nanos
}

/// Whether these are the sessions of a heartbeat: exactly those that are active
/// at the time, with `other` in the place of the session with its key, each once,
/// in order of their agents and of their ids.
pub open spec fn are_live_sessions(
    live: Seq<SessionView>,
    sessions: Seq<SessionView>,
    other: Option<SessionView>,
    at: Timestamp,
    ttl: TimeDelta,
) -> bool {
    &&& forall|s: SessionView| #[trigger]
        live.contains(s) <==> is_live(s, at, ttl) && exists|i: int|
            0 <= i < sessions.len() && (#[trigger] sessions[i]).key == s.key && (if other is Some && (
            other->0).key == s.key {
                s == other->0
            } else {
                s == sessions[i]
            })
    &&& forall|i: int, j: int|
        0 <= i < j < live.len() ==> {
            let a = (#[trigger] live[i]).key;
            let b = (#[trigger] live[j]).key;
            &&& a != b
            &&& text_before(a.code_agent, b.code_agent) || (a.code_agent == b.code_agent && (
            a.session_id == b.session_id || text_before(a.session_id, b.session_id)))
        }
}

proof fn lemma_live_keys(
    sessions: Seq<SessionView>,
    other: Option<SessionView>,
    at: Timestamp,
    ttl: TimeDelta,
)
    requires
        distinct_keys(sessions),
    ensures
        distinct_keys(active_sessions(sessions, other, at, ttl)),
        forall|s: SessionView| #[trigger]
            active_sessions(sessions, other, at, ttl).contains(s) <==> s.active_at(at, ttl)
                && exists|i: int|
                0 <= i < sessions.len() && substituted(#[trigger] sessions[i], other) == s,
    decreases sessions.len(),
{
    broadcast use vstd::seq_lib::group_to_multiset_ensures;

    let live = active_sessions(sessions, other, at, ttl);
    if sessions.len() > 0 {
        let rest = sessions.drop_last();
        let fewer = active_sessions(rest, other, at, ttl);
        let last = substituted(sessions.last(), other);
        assert forall|i: int, j: int| 0 <= i < j < rest.len() implies (#[trigger] rest[i]).key != (
        #[trigger] rest[j]).key by {
            assert(rest[i] == sessions[i] && rest[j] == sessions[j]);
        }
        lemma_live_keys(rest, other, at, ttl);
        lemma_insert_session(fewer, last);
        assert forall|s: SessionView| fewer.contains(s) implies s.key != last.key by {
            let i = choose|i: int|
                0 <= i < rest.len() && substituted(#[trigger] rest[i], other) == s;
            assert(rest[i] == sessions[i]);
            assert(sessions[i].key != sessions[sessions.len() - 1].key);
        }
        if last.active_at(at, ttl) {
            lemma_insert_keeps_keys_distinct(fewer, last);
        }
        assert forall|s: SessionView| #[trigger] live.contains(s) <==> s.active_at(at, ttl)
            && exists|i: int|
            0 <= i < sessions.len() && substituted(#[trigger] sessions[i], other) == s by {
            assert(last.active_at(at, ttl) ==> (live.contains(s) <==> fewer.contains(s) || s
                == last)) by {
                if last.active_at(at, ttl) {
                    assert(live.to_multiset().contains(s) <==> live.contains(s));
                    assert(fewer.to_multiset().contains(s) <==> fewer.contains(s));
                }
            }
            if fewer.contains(s) {
                let i = choose|i: int|
                    0 <= i < rest.len() && substituted(#[trigger] rest[i], other) == s;
                assert(sessions[i] == rest[i]);
            }
            if s == last {
                assert(substituted(sessions[sessions.len() - 1], other) == s);
            }
            if exists|i: int|
                0 <= i < sessions.len() && substituted(#[trigger] sessions[i], other) == s {
                let i = choose|i: int|
                    0 <= i < sessions.len() && substituted(#[trigger] sessions[i], other) == s;
                if i < rest.len() {
                    assert(substituted(rest[i], other) == s);
                }
            }
        }
    }
}

proof fn lemma_insert_keeps_keys_distinct(list: Seq<SessionView>, session: SessionView)
    requires
        distinct_keys(list),
        forall|s: SessionView| list.contains(s) ==> s.key != session.key,
    ensures
        distinct_keys(insert_session(list, session)),
    decreases list.len(),
{
    broadcast use vstd::seq_lib::group_to_multiset_ensures;

    let after = insert_session(list, session);
    if list.len() == 0 {
    } else if key_le(list.last().key, session.key) {
        assert forall|i: int, j: int| 0 <= i < j < after.len() implies (#[trigger] after[i]).key
            != (#[trigger] after[j]).key by {
            assert(after[i] == list[i]);
            assert(list.contains(list[i]));
            if j < list.len() {
                assert(after[j] == list[j]);
            }
        }
    } else {
        let rest = list.drop_last();
        let shorter = insert_session(rest, session);
        assert forall|i: int, j: int| 0 <= i < j < rest.len() implies (#[trigger] rest[i]).key != (
        #[trigger] rest[j]).key by {
            assert(rest[i] == list[i] && rest[j] == list[j]);
        }
        assert forall|s: SessionView| rest.contains(s) implies s.key != session.key by {
            let k = choose|k: int| 0 <= k < rest.len() && rest[k] == s;
            assert(list[k] == s);
            assert(list.contains(s));
        }
        lemma_insert_keeps_keys_distinct(rest, session);
        lemma_insert_session(rest, session);
        assert(list.contains(list[list.len() - 1]));
        assert forall|i: int, j: int| 0 <= i < j < after.len() implies (#[trigger] after[i]).key
            != (#[trigger] after[j]).key by {
            assert(after[i] == shorter[i]);
            if j < shorter.len() {
                assert(after[j] == shorter[j]);
            } else {
                assert(shorter.to_multiset().contains(shorter[i]));
                if shorter[i] != session {
                    assert(rest.to_multiset().contains(shorter[i]));
                    assert(rest.contains(shorter[i]));
                    let k = choose|k: int| 0 <= k < rest.len() && rest[k] == shorter[i];
                    assert(list[k] == rest[k]);
                    assert(list[k].key != list[list.len() - 1].key);
                }
            }
        }
    }
}

/// Whether this is the heartbeat of the sessions at the time: there is one if
/// and only if a session is active, and it tells of exactly the active ones.
pub open spec fn is_heartbeat_of(
    event: Option<EventView>,
    sessions: Seq<SessionView>,
    other: Option<SessionView>,
    at: Timestamp,
    ttl: TimeDelta,
) -> bool {
    exists|live: Seq<SessionView>| #[trigger]
        are_live_sessions(live, sessions, other, at, ttl) && if live.len() == 0 {
            event is None
        } else {
            &&& event is Some
            &&& (event->0).id is None
            &&& (event->0).timestamp == at
            &&& (event->0).duration.nanos == 0
            &&& tells_live_sessions((event->0).data, live)
        }
}

/// A heartbeat is that of the sessions that are active at its time.
pub proof fn a_heartbeat_tells_of_the_active_sessions(
    sessions: Seq<SessionView>,
    other: Option<SessionView>,
    at: Timestamp,
    ttl: TimeDelta,
)
    requires
        distinct_keys(sessions),
        sessions.len() <= u64::MAX,
    ensures
        is_heartbeat_of(aggregate_heartbeat(sessions, other, at, ttl), sessions, other, at, ttl),
{
    let live = active_sessions(sessions, other, at, ttl);
    lemma_live_keys(sessions, other, at, ttl);
    live_sessions_are_the_active_ones_in_order(sessions, other, at, ttl);
    lemma_at_most_as_many(sessions, other, at, ttl);
    assert forall|s: SessionView| #[trigger] live.contains(s) <==> is_live(s, at, ttl)
        && exists|i: int|
        0 <= i < sessions.len() && (#[trigger] sessions[i]).key == s.key && (if other is Some && (
        other->0).key == s.key {
            s == other->0
        } else {
            s == sessions[i]
        }) by {
        if live.contains(s) {
            let i = choose|i: int|
                0 <= i < sessions.len() && substituted(#[trigger] sessions[i], other) == s;
            assert(sessions[i].key == s.key);
        }
        if exists|i: int|
            0 <= i < sessions.len() && (#[trigger] sessions[i]).key == s.key && (if other is Some
                && (other->0).key == s.key {
                s == other->0
            } else {
                s == sessions[i]
            }) {
            let i = choose|i: int|
                0 <= i < sessions.len() && (#[trigger] sessions[i]).key == s.key && (if other is Some
                    && (other->0).key == s.key {
                    s == other->0
                } else {
                    s == sessions[i]
                });
            assert(substituted(sessions[i], other) == s);
        }
    }
    assert forall|i: int, j: int| 0 <= i < j < live.len() implies {
        let a = (#[trigger] live[i]).key;
        let b = (#[trigger] live[j]).key;
        &&& a != b
        &&& text_before(a.code_agent, b.code_agent) || (a.code_agent == b.code_agent && (
        a.session_id == b.session_id || text_before(a.session_id, b.session_id)))
    } by {
        let a = live[i].key;
        let b = live[j].key;
        assert(key_le(a, b));
        texts_are_ordered_by_their_first_difference(a.code_agent, b.code_agent);
        texts_are_ordered_by_their_first_difference(a.session_id, b.session_id);
    }
    assert(are_live_sessions(live, sessions, other, at, ttl));
    if live.len() > 0 {
        a_heartbeat_tells_of_each_session(live);
    }
}

proof fn lemma_at_most_as_many(
    sessions: Seq<SessionView>,
    other: Option<SessionView>,
    at: Timestamp,
    ttl: TimeDelta,
)
    ensures
        active_sessions(sessions, other, at, ttl).len() <= sessions.len(),
    decreases sessions.len(),
{
    if sessions.len() > 0 {
        let rest = sessions.drop_last();
        lemma_at_most_as_many(rest, other, at, ttl);
        lemma_insert_session(
            active_sessions(rest, other, at, ttl),
            substituted(sessions.last(), other),
        );
    }
}

} // verus!
