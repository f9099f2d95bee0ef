//! The heartbeat of live activity: all sessions that are active at one time,
//! merged into one event.
use vstd::prelude::*;

use crate::events::{Event, EventView, KeyView};
use crate::json::{
    entries, insert_value, json, list_json, list_value, new_object, no_entries, object_value,
    optional_text, put_optional_text, put_text, put_texts, text_list, unsigned_value,
    with_optional, Json,
};
use crate::session::{ActiveSession, SessionView};
use crate::text::{insert_text, sorted_distinct, text_at_most, text_le, texts_view};
use crate::time::{TimeDelta, Timestamp};

verus! {

/// What each session of a list holds.
pub open spec fn refs_view(sessions: Seq<&ActiveSession>) -> Seq<SessionView> {
    sessions.map_values(|session: &ActiveSession| session@)
}

/// What each session of a list holds.
pub open spec fn sessions_view(sessions: Seq<ActiveSession>) -> Seq<SessionView> {
    sessions.map_values(|session: ActiveSession| session@)
}

/// The one text of the list, or `multiple`.
pub open spec fn single_or_many(texts: Seq<Seq<char>>) -> Seq<char> {
    if texts.len() == 1 {
        texts[0]
    } else {
        "multiple"@
    }
}

/// The one text of the list, or `multiple`.
pub fn single_or_multiple(values: &Vec<String>) -> (value: String)
    ensures
        value@ == single_or_many(texts_view(values@)),
        values.len() == 1 ==> value@ == values[0]@,
        values.len() != 1 ==> value@ == "multiple"@,
{
    if values.len() == 1 {
        values[0].clone()
    } else {
        "multiple".to_string()
    }
}

/// The agents of the sessions, in order and without repeats.
pub open spec fn agents_of(sessions: Seq<SessionView>) -> Seq<Seq<char>> {
    sorted_distinct(sessions.map_values(|session: SessionView| session.key.code_agent))
}

/// The names of the sessions' projects, in order and without repeats.
pub open spec fn projects_of(sessions: Seq<SessionView>) -> Seq<Seq<char>> {
    sorted_distinct(sessions.map_values(|session: SessionView| session.project_name))
}

/// The directories of the sessions' projects, in order and without repeats.
pub open spec fn project_dirs_of(sessions: Seq<SessionView>) -> Seq<Seq<char>> {
    sorted_distinct(sessions.map_values(|session: SessionView| session.project_dir))
}

/// The selected models of those sessions that have one.
pub open spec fn selected_models(sessions: Seq<SessionView>) -> Seq<Seq<char>>
    decreases sessions.len(),
{
    if sessions.len() == 0 {
        seq![]
    } else {
        let rest = selected_models(sessions.drop_last());
        match sessions.last().model {
            Some(model) => rest.push(model),
            None => rest,
        }
    }
}

/// The selected models, in order and without repeats.
pub open spec fn models_of(sessions: Seq<SessionView>) -> Seq<Seq<char>> {
    sorted_distinct(selected_models(sessions))
}

/// One session of a heartbeat, as an object.
pub open spec fn session_entries(session: SessionView) -> Map<Seq<char>, Json> {
    let item = no_entries();
    let item = item.insert("code_agent"@, Json::Text(session.key.code_agent));
    let item = item.insert("session_id"@, Json::Text(session.key.session_id));
    let item = with_optional(
        item,
        "session_instance_id"@,
        optional_text(session.key.session_instance_id),
    );
    let item = item.insert("project"@, Json::Text(session.project_name));
    let item = item.insert("project_dir"@, Json::Text(session.project_dir));
    with_optional(item, "model"@, optional_text(session.model))
}

/// The data of a heartbeat of these sessions.
pub open spec fn aggregate_data(sessions: Seq<SessionView>) -> Map<Seq<char>, Json> {
    let data = no_entries();
    let data = data.insert("status"@, Json::Text("active"@));
    let data = data.insert("language"@, Json::Text("code-agent"@));
    let data = data.insert("project"@, Json::Text(single_or_many(projects_of(sessions))));
    let data = data.insert("file"@, Json::Text(single_or_many(project_dirs_of(sessions))));
    let data = data.insert("active_session_count"@, Json::Unsigned(sessions.len() as u64));
    let data = data.insert("code_agents"@, text_list(agents_of(sessions)));
    let data = data.insert("projects"@, text_list(projects_of(sessions)));
    let data = data.insert("project_dirs"@, text_list(project_dirs_of(sessions)));
    let data = if models_of(sessions).len() > 0 {
        data.insert("models"@, text_list(models_of(sessions)))
    } else {
        data
    };
    data.insert(
        "sessions"@,
        Json::List(
            sessions.map_values(|session: SessionView| Json::Object(session_entries(session))),
        ),
    )
}

proof fn lemma_one_more(sessions: Seq<SessionView>, i: int, f: spec_fn(SessionView) -> Seq<char>)
    requires
        0 <= i < sessions.len(),
    ensures
        sorted_distinct(sessions.take(i + 1).map_values(f)) == crate::text::insert_sorted(
            sorted_distinct(sessions.take(i).map_values(f)),
            f(sessions[i]),
        ),
{
    let longer = sessions.take(i + 1).map_values(f);
    assert(longer.drop_last() =~= sessions.take(i).map_values(f));
    assert(longer.last() == f(sessions[i]));
}

/// The data of a heartbeat of these sessions.
pub fn aggregate_to_aw_data(sessions: &Vec<&ActiveSession>) -> (data: serde_json::Map<
    String,
    serde_json::Value,
>)
    ensures
        entries(data) == aggregate_data(refs_view(sessions@)),
{
    let ghost views = refs_view(sessions@);
    let mut code_agents: Vec<String> = Vec::new();
    let mut projects: Vec<String> = Vec::new();
    let mut project_dirs: Vec<String> = Vec::new();
    let mut models: Vec<String> = Vec::new();
    let mut items: Vec<serde_json::Value> = Vec::new();
    proof {
        let none = views.take(0);
        assert(texts_view(code_agents@) =~= agents_of(none));
        assert(texts_view(projects@) =~= projects_of(none));
        assert(texts_view(project_dirs@) =~= project_dirs_of(none));
        assert(texts_view(models@) =~= models_of(none));
    }
    for i in 0..sessions.len()
        invariant
            views == refs_view(sessions@),
            texts_view(code_agents@) == agents_of(views.take(i as int)),
            texts_view(projects@) == projects_of(views.take(i as int)),
            texts_view(project_dirs@) == project_dirs_of(views.take(i as int)),
            texts_view(models@) == models_of(views.take(i as int)),
            items.len() == i,
            forall|j: int|
                0 <= j < i ==> json(#[trigger] items@[j]) == Json::Object(
                    session_entries(views[j]),
                ),
    {
        let session: &ActiveSession = sessions[i];
        proof {
            assert(views[i as int] == session@);
            lemma_one_more(views, i as int, |s: SessionView| s.key.code_agent);
            lemma_one_more(views, i as int, |s: SessionView| s.project_name);
            lemma_one_more(views, i as int, |s: SessionView| s.project_dir);
            let longer = views.take(i + 1);
            assert(longer.drop_last() =~= views.take(i as int));
            assert(longer.last() == session@);
            let shorter = selected_models(views.take(i as int));
            if session@.model is Some {
                assert(shorter.push(session@.model->0).drop_last() =~= shorter);
            }
        }
        insert_text(&mut code_agents, &session.key.code_agent);
        insert_text(&mut projects, &session.project_name);
        insert_text(&mut project_dirs, &session.project_dir);
        if let Some(model) = &session.model {
            insert_text(&mut models, model);
        }
        items.push(session_value(session));
    }
    proof {
        assert(views.take(sessions.len() as int) =~= views);
        assert(list_json(items@) =~= views.map_values(
            |session: SessionView| Json::Object(session_entries(session)),
        ));
    }
    let mut data = new_object();
    put_text(&mut data, "status", "active");
    put_text(&mut data, "language", "code-agent");
    put_text(&mut data, "project", single_or_multiple(&projects).as_str());
    put_text(&mut data, "file", single_or_multiple(&project_dirs).as_str());
    insert_value(
        &mut data,
        "active_session_count".to_string(),
        unsigned_value(sessions.len() as u64),
    );
    put_texts(&mut data, "code_agents", &code_agents);
    put_texts(&mut data, "projects", &projects);
    put_texts(&mut data, "project_dirs", &project_dirs);
    if models.len() > 0 {
        put_texts(&mut data, "models", &models);
    }
    insert_value(&mut data, "sessions".to_string(), list_value(items));
    data
}

/// One session of a heartbeat, as a JSON object.
fn session_value(session: &ActiveSession) -> (value: serde_json::Value)
    ensures
        json(value) == Json::Object(session_entries(session@)),
{
    let mut item = new_object();
    put_text(&mut item, "code_agent", session.key.code_agent.as_str());
    put_text(&mut item, "session_id", session.key.session_id.as_str());
    put_optional_text(&mut item, "session_instance_id", &session.key.session_instance_id);
    put_text(&mut item, "project", session.project_name.as_str());
    put_text(&mut item, "project_dir", session.project_dir.as_str());
    put_optional_text(&mut item, "model", &session.model);
    object_value(item)
}

/// Whether the first key comes no later than the second: keys are ordered by
/// agent, and those of one agent by session.
pub open spec fn key_le(a: KeyView, b: KeyView) -> bool {
    if a.code_agent == b.code_agent {
        text_le(a.session_id, b.session_id)
    } else {
        text_le(a.code_agent, b.code_agent)
    }
}

/// The list with the session put behind all that come no later.
pub open spec fn insert_session(list: Seq<SessionView>, session: SessionView) -> Seq<SessionView>
    decreases list.len(),
{
    if list.len() == 0 {
        seq![session]
    } else if key_le(list.last().key, session.key) {
        list.push(session)
    } else {
        insert_session(list.drop_last(), session).push(list.last())
    }
}

/// The session, or the other one where it stands for the same run.
pub open spec fn substituted(session: SessionView, other: Option<SessionView>) -> SessionView {
    if other is Some && (other->0).key == session.key {
        other->0
    } else {
        session
    }
}

/// What the optional session holds, if it is there.
pub open spec fn optional_session(session: Option<&ActiveSession>) -> Option<SessionView> {
    match session {
        Some(session) => Some(session@),
        None => None,
    }
}

/// The sessions that are active at `at`, in order of their keys; where `other`
/// stands for one of them, it takes its place.
pub open spec fn active_sessions(
    sessions: Seq<SessionView>,
    other: Option<SessionView>,
    at: Timestamp,
    ttl: TimeDelta,
) -> Seq<SessionView>
    decreases sessions.len(),
{
    if sessions.len() == 0 {
        seq![]
    } else {
        let rest = active_sessions(sessions.drop_last(), other, at, ttl);
        let session = substituted(sessions.last(), other);
        if session.active_at(at, ttl) {
            insert_session(rest, session)
        } else {
            rest
        }
    }
}

/// The heartbeat of the sessions that are active at `at`, if any is.
pub open spec fn aggregate_heartbeat(
    sessions: Seq<SessionView>,
    other: Option<SessionView>,
    at: Timestamp,
    ttl: TimeDelta,
) -> Option<EventView> {
    let active = active_sessions(sessions, other, at, ttl);
    if active.len() == 0 {
        None
    } else {
        Some(
            EventView {
                id: None,
                timestamp: at,
                duration: TimeDelta { nanos: 0 },
                data: aggregate_data(active),
            },
        )
    }
}

/// What the optional event holds, if it is there.
pub open spec fn optional_event(event: Option<Event>) -> Option<EventView> {
    match event {
        Some(event) => Some(event@),
        None => None,
    }
}

proof fn lemma_insert_session_position(list: Seq<SessionView>, session: SessionView, at: int)
    requires
        0 <= at <= list.len(),
        forall|j: int| at <= j < list.len() ==> !key_le((#[trigger] list[j]).key, session.key),
        at > 0 ==> key_le(list[at - 1].key, session.key),
    ensures
        insert_session(list, session) == list.insert(at, session),
    decreases list.len(),
{
    if at < list.len() {
        let rest = list.drop_last();
        assert forall|j: int| at <= j < rest.len() implies !key_le(
            (#[trigger] rest[j]).key,
            session.key,
        ) by {
            assert(rest[j] == list[j]);
        }
        lemma_insert_session_position(rest, session, at);
        assert(!key_le(list[list.len() - 1].key, session.key));
        assert(rest.insert(at, session).push(list.last()) =~= list.insert(at, session));
    } else if list.len() == 0 {
        assert(list.insert(0, session) =~= seq![session]);
    } else {
        assert(list.insert(at, session) =~= list.push(session));
    }
}

/// Whether the key of the first session comes no later than that of the second.
fn key_at_most(a: &ActiveSession, b: &ActiveSession) -> (at_most: bool)
    ensures
        at_most == key_le(a@.key, b@.key),
{
    if a.key.code_agent == b.key.code_agent {
        text_at_most(a.key.session_id.as_str(), b.key.session_id.as_str())
    } else {
        text_at_most(a.key.code_agent.as_str(), b.key.code_agent.as_str())
    }
}

/// The heartbeat of the sessions that are active at `at`, if any is; where
/// `override_session` stands for one of them, it takes its place.
pub fn build_aggregate_heartbeat(
    sessions: &Vec<ActiveSession>,
    override_session: Option<&ActiveSession>,
    at: Timestamp,
    active_ttl: TimeDelta,
) -> (event: Option<Event>)
    requires
        forall|i: int| 0 <= i < sessions.len() ==> (#[trigger] sessions@[i]).wf(),
        override_session is Some ==> (override_session->0).wf(),
        at.wf(),
    ensures
        optional_event(event) == aggregate_heartbeat(
            sessions_view(sessions@),
            optional_session(override_session),
            at,
            active_ttl,
        ),
{
    let ghost views = sessions_view(sessions@);
    let ghost other = optional_session(override_session);
    let mut active: Vec<&ActiveSession> = Vec::new();
    proof {
        assert(refs_view(active@) =~= active_sessions(views.take(0), other, at, active_ttl));
    }
    for i in 0..sessions.len()
        invariant
            views == sessions_view(sessions@),
            other == optional_session(override_session),
            forall|i: int| 0 <= i < sessions.len() ==> (#[trigger] sessions@[i]).wf(),
            override_session is Some ==> (override_session->0).wf(),
            at.wf(),
            refs_view(active@) == active_sessions(views.take(i as int), other, at, active_ttl),
    {
        let session: &ActiveSession = match override_session {
            Some(other) => if other.key.same(&sessions[i].key) {
                other
            } else {
                &sessions[i]
            },
            None => &sessions[i],
        };
        proof {
            let longer = views.take(i + 1);
            assert(longer.drop_last() =~= views.take(i as int));
            assert(longer.last() == sessions@[i as int]@);
            assert(session@ == substituted(longer.last(), other));
        }
        if session.is_active_at(at, active_ttl) {
            let ghost list = refs_view(active@);
            let mut place: usize = active.len();
            while place > 0 && !key_at_most(active[place - 1], session)
                invariant
                    place <= active.len(),
                    list == refs_view(active@),
                    forall|j: int|
                        place <= j < list.len() ==> !key_le(
                            (#[trigger] list[j]).key,
                            session@.key,
                        ),
                decreases place,
            {
                place = place - 1;
            }
            proof {
                lemma_insert_session_position(list, session@, place as int);
            }
            active.insert(place, session);
            assert(refs_view(active@) =~= list.insert(place as int, session@));
        }
    }
    proof {
        assert(views.take(sessions.len() as int) =~= views);
    }
    if active.len() == 0 {
        return None;
    }
    Some(
        Event {
            id: None,
            timestamp: at,
            duration: TimeDelta::zero(),
            data: aggregate_to_aw_data(&active),
        },
    )
}

} // verus!
