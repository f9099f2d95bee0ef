//! The tracker of all sessions: what each request does to them, and what has to
//! be recorded on account of it.
//!
//! A request never waits for a recording here. Where a summary has to be
//! recorded, the tracker hands it out; the caller records it and comes back with
//! the [outcome](SummaryOutcome).
use vstd::prelude::*;

use crate::api::{
    summary_failed, summary_failed_text, unknown_session, unknown_session_text, ApiStatus,
    CommandError, SessionResponse,
};
use crate::events::{
    EndView, Event, EventView, HeartbeatView, KeyView, SessionEndRequest, SessionHeartbeatRequest,
    SessionKey, SessionStartRequest, SessionUpdateRequest, StartView, UpdateView,
};
use crate::heartbeat::{
    aggregate_heartbeat, build_aggregate_heartbeat, optional_event, optional_session,
    sessions_view,
};
use crate::json::{get_value, value_text, Json};
use crate::paths::{is_project_name, project_name_from_dir};
use crate::recorded::{recorded_wf, remembered, RecordedSummaries};
use crate::session::{instant_or, ActiveSession, SessionView, SummaryEvent, SummaryView};
use crate::text::optional_view;
use crate::time::{is_clock_reading, reported_or_now, utc_now, TimeDelta, Timestamp, NANOS_PER_SEC};
use crate::usage::{optional_usages, Cost, CostView, ModelUsage};

verus! {

/// A session counts as active for so many seconds after a sign of activity.
pub const ACTIVE_TTL_SECS: i64 = 50;

/// A session that gives no sign for longer than so many seconds is abandoned.
pub const ABANDON_TIMEOUT_SECS: i64 = 300;

/// An abandoned session whose summary could not be recorded so many times is
/// given up.
pub const ABANDONED_SUMMARY_MAX_FAILURES: u32 = 10;

/// How long a session counts as active after a sign of activity.
pub open spec fn ttl() -> TimeDelta {
    TimeDelta { nanos: (ACTIVE_TTL_SECS * NANOS_PER_SEC) as i128 }
}

/// How long a session counts as active after a sign of activity.
pub fn active_ttl() -> (delta: TimeDelta)
    ensures
        delta == ttl(),
{
    TimeDelta::seconds(ACTIVE_TTL_SECS)
}

/// How long a session may go without a sign of activity.
pub fn abandon_timeout() -> (delta: TimeDelta)
    ensures
        delta.nanos == ABANDON_TIMEOUT_SECS * NANOS_PER_SEC,
{
    TimeDelta::seconds(ABANDON_TIMEOUT_SECS)
}

/// Whether the list has a session with the key.
pub open spec fn has_key(sessions: Seq<SessionView>, key: KeyView) -> bool {
    exists|i: int| 0 <= i < sessions.len() && (#[trigger] sessions[i]).key == key
}

/// Where the session with the key is in the list.
pub open spec fn place_of(sessions: Seq<SessionView>, key: KeyView) -> int {
    choose|i: int| 0 <= i < sessions.len() && (#[trigger] sessions[i]).key == key
}

/// The session with the key, if there is one.
pub open spec fn lookup(sessions: Seq<SessionView>, key: KeyView) -> Option<SessionView> {
    if has_key(sessions, key) {
        Some(sessions[place_of(sessions, key)])
    } else {
        None
    }
}

/// The sessions without the one with the key.
pub open spec fn without(sessions: Seq<SessionView>, key: KeyView) -> Seq<SessionView> {
    if has_key(sessions, key) {
        sessions.remove(place_of(sessions, key))
    } else {
        sessions
    }
}

/// The sessions with this one in the place of the one with its key.
pub open spec fn replaced(sessions: Seq<SessionView>, session: SessionView) -> Seq<SessionView> {
    sessions.update(place_of(sessions, session.key), session)
}

/// Whether no two sessions have the same key.
pub open spec fn distinct_keys(sessions: Seq<SessionView>) -> bool {
    forall|i: int, j: int|
        0 <= i < j < sessions.len() ==> (#[trigger] sessions[i]).key != (#[trigger] sessions[j]).key
}

/// The name of the summary that the event is, if it is one.
pub open spec fn event_summary_id(event: EventView) -> Option<Seq<char>> {
    if event.data.contains_key("summary_id"@) {
        match event.data["summary_id"@] {
            Json::Text(id) => Some(id),
            _ => None,
        }
    } else {
        None
    }
}

/// The name of the summary that the event is, if it is one.
pub fn summary_id_from_event(event: &Event) -> (id: Option<String>)
    ensures
        optional_view(id) == event_summary_id(event@),
{
    match get_value(&event.data, "summary_id") {
        Some(value) => match value_text(value) {
            Some(id) => Some(id.to_string()),
            None => None,
        },
        None => None,
    }
}

/// What became of a summary that was to be recorded.
#[derive(Debug)]
pub enum SummaryOutcome {
    /// It had been recorded before.
    AlreadyRecorded,
    /// It was recorded as this event.
    Recorded(Event),
    /// It could not be recorded, for the reason given.
    Failed(String),
}

/// What a [`SummaryOutcome`] says.
pub enum OutcomeView {
    AlreadyRecorded,
    Recorded(EventView),
    Failed(Seq<char>),
}

impl View for SummaryOutcome {
    type V = OutcomeView;

    open spec fn view(&self) -> OutcomeView {
        match self {
            SummaryOutcome::AlreadyRecorded => OutcomeView::AlreadyRecorded,
            SummaryOutcome::Recorded(event) => OutcomeView::Recorded(event@),
            SummaryOutcome::Failed(cause) => OutcomeView::Failed(cause@),
        }
    }
}

/// What has to be done for a session to end.
#[derive(Debug)]
pub struct EndPlan {
    /// The heartbeat to send, if the session was active to its end.
    pub heartbeat: Option<Event>,
    /// The summary to record, unless it has been recorded before.
    pub summary: Option<SummaryEvent>,
}

/// What an [`EndPlan`] holds.
pub struct EndPlanView {
    pub heartbeat: Option<EventView>,
    pub summary: Option<SummaryView>,
}

impl View for EndPlan {
    type V = EndPlanView;

    open spec fn view(&self) -> EndPlanView {
        EndPlanView {
            heartbeat: optional_event(self.heartbeat),
            summary: optional_summary(self.summary),
        }
    }
}

/// What the optional summary holds, if it is there.
pub open spec fn optional_summary(summary: Option<SummaryEvent>) -> Option<SummaryView> {
    match summary {
        Some(summary) => Some(summary@),
        None => None,
    }
}

/// An abandoned session, and the summary to record of it.
#[derive(Debug)]
pub struct Abandoned {
    pub session: ActiveSession,
    pub summary: SummaryEvent,
}

/// What the optional abandoned session holds, if it is there.
pub open spec fn optional_abandoned(abandoned: Option<Abandoned>) -> Option<
    (SessionView, SummaryView),
> {
    match abandoned {
        Some(abandoned) => Some((abandoned.session@, abandoned.summary@)),
        None => None,
    }
}

/// The tracker of all sessions.
#[derive(Debug)]
pub struct SessionActor {
    pub event_bucket_id: String,
    pub sum_bucket_id: String,
    /// The sessions, in the order in which they came.
    pub sessions: Vec<ActiveSession>,
    pub recorded: RecordedSummaries,
}

/// What a [`SessionActor`] keeps track of.
pub struct ActorView {
    pub event_bucket_id: Seq<char>,
    pub sum_bucket_id: Seq<char>,
    pub sessions: Seq<SessionView>,
    pub recorded: Seq<Seq<char>>,
}

impl View for SessionActor {
    type V = ActorView;

    open spec fn view(&self) -> ActorView {
        ActorView {
            event_bucket_id: self.event_bucket_id@,
            sum_bucket_id: self.sum_bucket_id@,
            sessions: sessions_view(self.sessions@),
            recorded: self.recorded@,
        }
    }
}

/// The summary of an abandoned session, which ended with its last sign of
/// activity.
pub open spec fn abandoned_summary(session: SessionView, reason: Seq<char>) -> SummaryView {
    session.finished().summary("abandoned"@, session.last_active_at->0, Some(reason))
}

/// Whether the session has gone without a sign of activity, from its start if
/// there never was one, for too long.
pub open spec fn timed_out(session: SessionView, now: Timestamp) -> bool {
    now.nanos_since(instant_or(session.last_active_at, session.started_at)) > ABANDON_TIMEOUT_SECS
        * NANOS_PER_SEC
}

/// The keys of the sessions that have timed out.
pub open spec fn timed_out_keys(sessions: Seq<SessionView>, now: Timestamp) -> Seq<KeyView>
    decreases sessions.len(),
{
    if sessions.len() == 0 {
        seq![]
    } else {
        let rest = timed_out_keys(sessions.drop_last(), now);
        if timed_out(sessions.last(), now) {
            rest.push(sessions.last().key)
        } else {
            rest
        }
    }
}

/// What each key of a list holds.
pub open spec fn keys_view(keys: Seq<SessionKey>) -> Seq<KeyView> {
    keys.map_values(|key: SessionKey| key@)
}

/// Whether the session is well-formed and has not failed too often.
pub open spec fn tracked_wf(session: SessionView) -> bool {
    session.wf() && session.abandoned_summary_failures < ABANDONED_SUMMARY_MAX_FAILURES
}

impl ActorView {
    /// What always holds: every session is well-formed and has not failed too
    /// often, no two have the same key, and the names of recorded summaries are
    /// kept as they should.
    pub open spec fn wf(self) -> bool {
        &&& forall|i: int| 0 <= i < self.sessions.len() ==> tracked_wf(#[trigger] self.sessions[i])
        &&& distinct_keys(self.sessions)
        &&& recorded_wf(self.recorded)
    }

    /// Whether the summary has been recorded before.
    pub open spec fn is_recorded(self, summary: SummaryView) -> bool {
        event_summary_id(summary.event) is Some && self.recorded.contains(
            event_summary_id(summary.event)->0,
        )
    }

    /// The summary, unless it has been recorded before.
    pub open spec fn to_record(self, summary: SummaryView) -> Option<SummaryView> {
        if self.is_recorded(summary) {
            None
        } else {
            Some(summary)
        }
    }

    /// The tracker with the name of the recorded event kept.
    pub open spec fn having_recorded(self, event: EventView) -> ActorView {
        match event_summary_id(event) {
            Some(id) => ActorView { recorded: remembered(self.recorded, id), ..self },
            None => self,
        }
    }

    /// The tracker after the outcome of a recording, whichever it was.
    pub open spec fn settled(self, outcome: OutcomeView) -> ActorView {
        match outcome {
            OutcomeView::Recorded(event) => self.having_recorded(event),
            _ => self,
        }
    }

    /// The heartbeat of the sessions that are active at `at`.
    pub open spec fn heartbeat_at(self, at: Timestamp, other: Option<SessionView>) -> Option<
        EventView,
    > {
        aggregate_heartbeat(self.sessions, other, at, ttl())
    }

    /// The tracker after a start. A run of a session that has a name of its own
    /// and is known goes on; otherwise a new session takes the place of the one
    /// with its key.
    pub open spec fn after_start(
        self,
        req: StartView,
        started_at: Timestamp,
        project_name: Seq<char>,
    ) -> ActorView {
        if has_key(self.sessions, req.key) && req.key.session_instance_id is Some {
            ActorView {
                sessions: replaced(self.sessions, lookup(self.sessions, req.key)->0.restarted(req)),
                ..self
            }
        } else {
            ActorView {
                sessions: without(self.sessions, req.key).push(
                    SessionView::started(req, started_at, project_name),
                ),
                ..self
            }
        }
    }

    /// The summary to record at a start: that of the session whose place is
    /// taken, if it has ever been active.
    pub open spec fn start_summary(self, req: StartView) -> Option<SummaryView> {
        match lookup(self.sessions, req.key) {
            Some(session) => if req.key.session_instance_id is None && session.ever_active() {
                self.to_record(abandoned_summary(session, "duplicate_start"@))
            } else {
                None
            },
            None => None,
        }
    }

    /// The session after an update at `at`, before a period of activity is
    /// ended. An update that comes while the session is active is a sign of
    /// activity.
    pub open spec fn updated_session(
        session: SessionView,
        req: UpdateView,
        candidate_cost: CostView,
        at: Timestamp,
    ) -> SessionView {
        let session = if session.active_at(at, ttl()) {
            session.marked(at, ttl())
        } else {
            session
        };
        session.updated(req, candidate_cost)
    }

    /// The tracker after an update, before a period of activity is ended.
    pub open spec fn amid_update(
        self,
        req: UpdateView,
        candidate_cost: CostView,
        now: Timestamp,
    ) -> ActorView {
        match lookup(self.sessions, req.key) {
            Some(session) => ActorView {
                sessions: replaced(
                    self.sessions,
                    Self::updated_session(
                        session,
                        req,
                        candidate_cost,
                        instant_or(req.active_at, now),
                    ),
                ),
                ..self
            },
            None => self,
        }
    }

    /// The tracker after an update. One that says that the session is no longer
    /// active ends the period of activity.
    pub open spec fn after_update(
        self,
        req: UpdateView,
        candidate_cost: CostView,
        now: Timestamp,
    ) -> ActorView {
        let at = instant_or(req.active_at, now);
        match lookup(self.sessions, req.key) {
            Some(session) => if req.active == Some(false) {
                ActorView {
                    sessions: replaced(
                        self.sessions,
                        Self::updated_session(session, req, candidate_cost, at).finished_at(at),
                    ),
                    ..self
                }
            } else {
                self.amid_update(req, candidate_cost, now)
            },
            None => self,
        }
    }

    /// The heartbeat to send at an update: one, if the update is a sign of
    /// activity.
    pub open spec fn update_heartbeat(
        self,
        req: UpdateView,
        candidate_cost: CostView,
        now: Timestamp,
    ) -> Option<EventView> {
        let at = instant_or(req.active_at, now);
        match lookup(self.sessions, req.key) {
            Some(session) => if session.active_at(at, ttl()) {
                self.amid_update(req, candidate_cost, now).heartbeat_at(at, None)
            } else {
                None
            },
            None => None,
        }
    }

    /// The tracker after a heartbeat of a session.
    pub open spec fn after_heartbeat(self, req: HeartbeatView, now: Timestamp) -> ActorView {
        match lookup(self.sessions, req.key) {
            Some(session) => ActorView {
                sessions: replaced(
                    self.sessions,
                    session.marked(instant_or(req.heartbeat_at, now), ttl()),
                ),
                ..self
            },
            None => self,
        }
    }

    /// The heartbeat to send at a heartbeat of a session, if it is known.
    pub open spec fn session_heartbeat(self, req: HeartbeatView, now: Timestamp) -> Option<
        EventView,
    > {
        if has_key(self.sessions, req.key) {
            self.after_heartbeat(req, now).heartbeat_at(instant_or(req.heartbeat_at, now), None)
        } else {
            None
        }
    }

    /// The session as it is at its end, before its period of activity is ended.
    pub open spec fn ended_session(
        session: SessionView,
        req: EndView,
        candidate_cost: CostView,
        ended_at: Timestamp,
    ) -> SessionView {
        let session = if session.active_at(ended_at, ttl()) {
            session.marked(ended_at, ttl())
        } else {
            session
        };
        session.ended(req, candidate_cost)
    }

    /// What has to be done for the session to end.
    pub open spec fn end_plan(
        self,
        session: SessionView,
        req: EndView,
        candidate_cost: CostView,
        now: Timestamp,
    ) -> EndPlanView {
        let ended_at = instant_or(req.ended_at, now);
        let ended = Self::ended_session(session, req, candidate_cost, ended_at);
        EndPlanView {
            heartbeat: if session.active_at(ended_at, ttl()) {
                self.heartbeat_at(ended_at, Some(ended))
            } else {
                None
            },
            summary: self.to_record(ended.finished().summary("completed"@, ended_at, None)),
        }
    }

    /// The tracker after a session's end. Where the summary could not be
    /// recorded, the session stays as it was.
    pub open spec fn after_end(self, key: KeyView, outcome: OutcomeView) -> ActorView {
        if outcome is Failed {
            self
        } else {
            let settled = self.settled(outcome);
            ActorView { sessions: without(settled.sessions, key), ..settled }
        }
    }

    /// The tracker without the session.
    pub open spec fn after_abandoning(self, key: KeyView) -> ActorView {
        ActorView { sessions: without(self.sessions, key), ..self }
    }

    /// The abandoned session, and the summary to record of it: there is one if
    /// the session has ever been active and the summary was not recorded yet.
    pub open spec fn abandoned(self, key: KeyView, reason: Seq<char>) -> Option<
        (SessionView, SummaryView),
    > {
        match lookup(self.sessions, key) {
            Some(session) => {
                let summary = abandoned_summary(session, reason);
                if session.ever_active() && !self.is_recorded(summary) {
                    Some((session.finished(), summary))
                } else {
                    None
                }
            },
            None => None,
        }
    }

    /// The session with one more failure counted.
    pub open spec fn failed_once_more(session: SessionView) -> SessionView {
        SessionView {
            abandoned_summary_failures: if session.abandoned_summary_failures < u32::MAX {
                (session.abandoned_summary_failures + 1) as u32
            } else {
                u32::MAX
            },
            ..session
        }
    }

    /// The tracker after the outcome for a session that had timed out. Where
    /// the summary could not be recorded the session comes back, until it has
    /// failed too often.
    pub open spec fn after_timeout(self, session: SessionView, outcome: OutcomeView) -> ActorView {
        if outcome is Failed {
            let session = Self::failed_once_more(session);
            if session.abandoned_summary_failures >= ABANDONED_SUMMARY_MAX_FAILURES {
                self
            } else {
                ActorView {
                    sessions: without(self.sessions, session.key).push(session),
                    ..self
                }
            }
        } else {
            self.settled(outcome)
        }
    }
}

pub(crate) proof fn lemma_place(sessions: Seq<SessionView>, key: KeyView, at: int)
    requires
        distinct_keys(sessions),
        0 <= at < sessions.len(),
        sessions[at].key == key,
    ensures
        has_key(sessions, key),
        place_of(sessions, key) == at,
{
    let place = place_of(sessions, key);
    assert(sessions[at].key == key);
    assert(0 <= place < sessions.len() && sessions[place].key == key);
}

pub(crate) proof fn lemma_push_keeps_keys_distinct(sessions: Seq<SessionView>, session: SessionView)
    requires
        distinct_keys(sessions),
        !has_key(sessions, session.key),
    ensures
        distinct_keys(sessions.push(session)),
{
    let after = sessions.push(session);
    assert forall|i: int, j: int| 0 <= i < j < after.len() implies (#[trigger] after[i]).key != (
    #[trigger] after[j]).key by {
        assert(after[i] == sessions[i]);
        if j < sessions.len() {
            assert(after[j] == sessions[j]);
        }
    }
}

pub(crate) proof fn lemma_without(sessions: Seq<SessionView>, key: KeyView)
    requires
        distinct_keys(sessions),
    ensures
        distinct_keys(without(sessions, key)),
        !has_key(without(sessions, key), key),
        forall|s: SessionView| #[trigger]
            without(sessions, key).contains(s) <==> sessions.contains(s) && s.key != key,
{
    let after = without(sessions, key);
    if has_key(sessions, key) {
        let place = place_of(sessions, key);
        assert forall|i: int| 0 <= i < after.len() implies #[trigger] after[i] == sessions[if i
            < place {
            i
        } else {
            i + 1
        }] && after[i].key != key by {
            let k = if i < place {
                i
            } else {
                i + 1
            };
            assert(after[i] == sessions[k]);
            if i < place {
                assert(sessions[i].key != sessions[place].key);
            } else {
                assert(sessions[place].key != sessions[i + 1].key);
            }
        }
        assert forall|i: int, j: int| 0 <= i < j < after.len() implies (#[trigger] after[i]).key
            != (#[trigger] after[j]).key by {
            let a = if i < place {
                i
            } else {
                i + 1
            };
            let b = if j < place {
                j
            } else {
                j + 1
            };
            assert(after[i] == sessions[a] && after[j] == sessions[b]);
            assert(sessions[a].key != sessions[b].key);
        }
        assert forall|s: SessionView| #[trigger]
            after.contains(s) <==> sessions.contains(s) && s.key != key by {
            if after.contains(s) {
                let i = choose|i: int| 0 <= i < after.len() && after[i] == s;
                assert(after[i] == s);
                assert(sessions.contains(sessions[if i < place {
                    i
                } else {
                    i + 1
                }]));
            }
            if sessions.contains(s) && s.key != key {
                let i = choose|i: int| 0 <= i < sessions.len() && sessions[i] == s;
                assert(i != place);
                if i < place {
                    assert(after[i] == s);
                } else {
                    assert(after[i - 1] == s);
                }
            }
        }
    } else {
        assert forall|s: SessionView| sessions.contains(s) implies s.key != key by {
            let i = choose|i: int| 0 <= i < sessions.len() && sessions[i] == s;
            assert(sessions[i].key == s.key);
        }
    }
}

pub(crate) proof fn lemma_replaced(sessions: Seq<SessionView>, session: SessionView)
    requires
        forall|i: int| 0 <= i < sessions.len() ==> tracked_wf(#[trigger] sessions[i]),
        distinct_keys(sessions),
        has_key(sessions, session.key),
        tracked_wf(session),
    ensures
        distinct_keys(replaced(sessions, session)),
        forall|i: int|
            0 <= i < sessions.len() ==> tracked_wf(#[trigger] replaced(sessions, session)[i]),
        0 <= place_of(sessions, session.key) < sessions.len(),
        sessions[place_of(sessions, session.key)].key == session.key,
{
    let place = place_of(sessions, session.key);
    let after = replaced(sessions, session);
    assert forall|i: int| 0 <= i < after.len() implies tracked_wf(#[trigger] after[i]) by {
        if i != place {
            assert(after[i] == sessions[i]);
        }
    }
    assert forall|i: int, j: int| 0 <= i < j < after.len() implies (#[trigger] after[i]).key != (
    #[trigger] after[j]).key by {
        assert(after[i].key == sessions[i].key);
        assert(after[j].key == sessions[j].key);
    }
}

impl SessionActor {
    /// What always holds, see [`ActorView::wf`].
    pub open spec fn wf(&self) -> bool {
        self@.wf()
    }

    /// A tracker without sessions.
    pub fn new(event_bucket_id: String, sum_bucket_id: String) -> (actor: SessionActor)
        ensures
            actor.wf(),
            actor@ == (ActorView {
                event_bucket_id: event_bucket_id@,
                sum_bucket_id: sum_bucket_id@,
                sessions: seq![],
                recorded: seq![],
            }),
    {
        let actor = SessionActor {
            event_bucket_id,
            sum_bucket_id,
            sessions: Vec::new(),
            recorded: RecordedSummaries::new(),
        };
        assert(actor@.sessions =~= seq![]);
        actor
    }

    /// How many sessions are tracked.
    pub fn session_count(&self) -> (count: usize)
        ensures
            count == self@.sessions.len(),
    {
        self.sessions.len()
    }

    /// Where the session with the key is.
    fn find(&self, key: &SessionKey) -> (place: Option<usize>)
        requires
            self.wf(),
        ensures
            place is Some <==> has_key(self@.sessions, key@),
            place is Some ==> {
                &&& place->0 < self.sessions.len()
                &&& place->0 == place_of(self@.sessions, key@)
                &&& self.sessions@[place->0 as int]@.key == key@
            },
    {
        for i in 0..self.sessions.len()
            invariant
                self.wf(),
                forall|j: int| 0 <= j < i ==> (#[trigger] self@.sessions[j]).key != key@,
        {
            assert(self@.sessions[i as int] == self.sessions@[i as int]@);
            if self.sessions[i].key.same(key) {
                proof {
                    lemma_place(self@.sessions, key@, i as int);
                }
                return Some(i);
            }
        }
        None
    }

    /// Takes the session with the key out.
    fn take_session(&mut self, key: &SessionKey) -> (session: Option<ActiveSession>)
        requires
            old(self).wf(),
        ensures
            final(self).wf(),
            final(self)@ == old(self)@.after_abandoning(key@),
            session is Some <==> has_key(old(self)@.sessions, key@),
            session is Some ==> (session->0).wf() && lookup(old(self)@.sessions, key@) == Some(
                (session->0)@,
            ),
    {
        let ghost before = self@.sessions;
        proof {
            lemma_without(before, key@);
        }
        match self.find(key) {
            Some(place) => {
                let session = self.sessions.remove(place);
                proof {
                    assert(session@ == before[place as int]);
                    assert(self@.sessions =~= without(before, key@));
                    lemma_all_wf_without(before, key@);
                }
                Some(session)
            },
            None => None,
        }
    }
}

impl SessionActor {
    /// The summary, unless it has been recorded before.
    fn unless_recorded(&self, summary: SummaryEvent) -> (to_record: Option<SummaryEvent>)
        ensures
            optional_summary(to_record) == self@.to_record(summary@),
    {
        match summary_id_from_event(&summary.event) {
            Some(id) => if self.recorded.contains(&id) {
                None
            } else {
                Some(summary)
            },
            None => Some(summary),
        }
    }

    /// Sums up a session that is abandoned for the reason given: the summary to
    /// record, unless it has been recorded before.
    fn sum_up_abandoned(&self, session: &mut ActiveSession, reason: &str) -> (to_record: Option<
        SummaryEvent,
    >)
        requires
            old(session).wf(),
        ensures
            final(session).wf(),
            final(session)@ == if old(session)@.ever_active() {
                old(session)@.finished()
            } else {
                old(session)@
            },
            optional_summary(to_record) == if old(session)@.ever_active() {
                self@.to_record(abandoned_summary(old(session)@, reason@))
            } else {
                None
            },
    {
        if !session.has_been_active() {
            return None;
        }
        match session.last_active_at {
            Some(ended_at) => {
                let summary = session.summary_event("abandoned", ended_at, Some(reason));
                self.unless_recorded(summary)
            },
            None => None,
        }
    }

    /// Takes in the start of a session, now.
    pub fn handle_start(&mut self, req: SessionStartRequest) -> (summary: Option<SummaryEvent>)
        requires
            old(self).wf(),
            req.wf(),
        ensures
            final(self).wf(),
            exists|now: Timestamp, name: Seq<char>| #[trigger]
                is_clock_reading(now) && #[trigger] is_project_name(req@.project_dir, name)
                    && final(self)@ == old(self)@.after_start(
                    req@,
                    instant_or(req.started_at, now),
                    name,
                ),
            optional_summary(summary) == old(self)@.start_summary(req@),
    {
        assert(is_clock_reading(Timestamp { secs: 0, nanos: 0 }));
        let now = reported_or_now(req.started_at);
        let project_name = project_name_from_dir(req.project_dir.as_str());
        self.handle_start_at(req, project_name, now)
    }

    /// Takes in the start of a session in the project of the given name, which
    /// is at `now` where the request does not say when. The result is the
    /// summary to record of the session whose place is taken.
    pub fn handle_start_at(
        &mut self,
        req: SessionStartRequest,
        project_name: String,
        now: Timestamp,
    ) -> (summary: Option<SummaryEvent>)
        requires
            old(self).wf(),
            req.wf(),
            now.wf(),
        ensures
            final(self).wf(),
            final(self)@ == old(self)@.after_start(
                req@,
                instant_or(req.started_at, now),
                project_name@,
            ),
            optional_summary(summary) == old(self)@.start_summary(req@),
    {
        let ghost before = self@.sessions;
        let key = req.key();
        if key.session_instance_id.is_some() {
            if let Some(place) = self.find(&key) {
                proof {
                    lemma_replaced(before, before[place as int].restarted(req@));
                }
                self.sessions[place].apply_start(req);
                assert(self@.sessions =~= replaced(
                    before,
                    before[place as int].restarted(req@),
                ));
                return None;
            }
        }
        let mut summary: Option<SummaryEvent> = None;
        if let Some(mut session) = self.take_session(&key) {
            summary = self.sum_up_abandoned(&mut session, "duplicate_start");
        }
        let ghost rest = self@.sessions;
        let session = ActiveSession::from_start_at(req, project_name, now);
        proof {
            lemma_without(before, key@);
            lemma_push_keeps_keys_distinct(rest, session@);
        }
        self.sessions.push(session);
        assert(self@.sessions =~= rest.push(session@));
        summary
    }
}

impl SessionActor {
    /// The bits of the costs that have to be added up before a report of usage
    /// by model of the session can be taken in, if the session is known.
    pub fn candidate_costs(&self, key: &SessionKey, model_usage: &Option<Vec<ModelUsage>>) -> (costs:
        Option<Vec<u64>>)
        requires
            self.wf(),
        ensures
            costs is Some <==> has_key(self@.sessions, key@),
            costs is Some ==> (costs->0)@ == (lookup(self@.sessions, key@)->0).candidate_costs(
                optional_usages(*model_usage),
            ),
    {
        match self.find(key) {
            Some(place) => Some(self.sessions[place].candidate_costs(model_usage)),
            None => None,
        }
    }

    /// The heartbeat of the sessions that are active at `at`, if any is; where
    /// `override_session` stands for one of them, it takes its place.
    pub fn build_aggregate_heartbeat_event(
        &self,
        override_session: Option<&ActiveSession>,
        at: Timestamp,
    ) -> (event: Option<Event>)
        requires
            self.wf(),
            override_session is Some ==> (override_session->0).wf(),
            at.wf(),
        ensures
            optional_event(event) == self@.heartbeat_at(at, optional_session(override_session)),
    {
        assert forall|i: int| 0 <= i < self.sessions.len() implies (
        #[trigger] self.sessions@[i]).wf() by {
            assert(self@.sessions[i].wf());
        }
        build_aggregate_heartbeat(&self.sessions, override_session, at, active_ttl())
    }

    /// Takes in an update of a session, now.
    pub fn handle_update(&mut self, req: SessionUpdateRequest, candidate_cost: Cost) -> (heartbeat:
        Option<Event>)
        requires
            old(self).wf(),
            req.wf(),
        ensures
            final(self).wf(),
            exists|now: Timestamp| #[trigger]
                is_clock_reading(now) && final(self)@ == old(self)@.after_update(req@, candidate_cost@, now)
                    && optional_event(heartbeat) == old(self)@.update_heartbeat(
                    req@,
                    candidate_cost@,
                    now,
                ),
    {
        assert(is_clock_reading(Timestamp { secs: 0, nanos: 0 }));
        let now = reported_or_now(req.active_at);
        self.handle_update_at(req, candidate_cost, now)
    }

    /// Takes in an update of a session, at `now` where the request does not say
    /// when. `candidate_cost` is the sum of the
    /// [costs by model](SessionActor::candidate_costs). The result is the
    /// heartbeat to send.
    pub fn handle_update_at(
        &mut self,
        req: SessionUpdateRequest,
        candidate_cost: Cost,
        now: Timestamp,
    ) -> (heartbeat: Option<Event>)
        requires
            old(self).wf(),
            req.wf(),
            now.wf(),
        ensures
            final(self).wf(),
            final(self)@ == old(self)@.after_update(req@, candidate_cost@, now),
            optional_event(heartbeat) == old(self)@.update_heartbeat(req@, candidate_cost@, now),
    {
        let ghost before = self@;
        let place = match self.find(&req.key()) {
            Some(place) => place,
            None => {
                return None;
            },
        };
        let at = req.active_at.unwrap_or(now);
        let active = req.active;
        let ghost update = req@;
        let ghost amid = ActorView::updated_session(
            before.sessions[place as int],
            update,
            candidate_cost@,
            at,
        );
        assert(self@.sessions[place as int].wf());
        let is_sign = self.sessions[place].is_active_at(at, active_ttl());
        self.update_session(place, is_sign, at, req, candidate_cost);
        assert(self@ == before.amid_update(update, candidate_cost@, now));
        let heartbeat = if is_sign {
            self.build_aggregate_heartbeat_event(None, at)
        } else {
            None
        };
        if active == Some(false) {
            self.finish_session(place, at);
            assert(self@.sessions =~= replaced(before.sessions, amid.finished_at(at)));
        }
        heartbeat
    }

    /// Ends the current period of activity of a session.
    fn finish_session(&mut self, place: usize, at: Timestamp)
        requires
            old(self).wf(),
            place < old(self).sessions.len(),
            at.wf(),
        ensures
            final(self).wf(),
            final(self)@ == (ActorView {
                sessions: old(self)@.sessions.update(
                    place as int,
                    old(self)@.sessions[place as int].finished_at(at),
                ),
                ..old(self)@
            }),
    {
        let ghost before = self@.sessions;
        let ghost after = before[place as int].finished_at(at);
        proof {
            lemma_place(before, after.key, place as int);
        }
        self.sessions[place].finish_active_period_at(at);
        proof {
            lemma_replaced(before, after);
            assert(self@.sessions =~= replaced(before, after));
        }
    }

    /// Takes an update in, and notes it as a sign of activity if it is one.
    fn update_session(
        &mut self,
        place: usize,
        is_sign: bool,
        at: Timestamp,
        req: SessionUpdateRequest,
        candidate_cost: Cost,
    )
        requires
            old(self).wf(),
            place < old(self).sessions.len(),
            place == place_of(old(self)@.sessions, req@.key),
            old(self)@.sessions[place as int].key == req@.key,
            is_sign == old(self)@.sessions[place as int].active_at(at, ttl()),
            at.wf(),
        ensures
            final(self).wf(),
            final(self)@ == (ActorView {
                sessions: replaced(
                    old(self)@.sessions,
                    ActorView::updated_session(
                        old(self)@.sessions[place as int],
                        req@,
                        candidate_cost@,
                        at,
                    ),
                ),
                ..old(self)@
            }),
    {
        let ghost before = self@.sessions;
        let ghost session = before[place as int];
        let ghost after = ActorView::updated_session(session, req@, candidate_cost@, at);
        if is_sign {
            self.sessions[place].mark_active(at, active_ttl());
        }
        self.sessions[place].apply_update(req, candidate_cost);
        proof {
            lemma_replaced(before, after);
            assert(self@.sessions =~= replaced(before, after));
        }
    }

    /// Takes in a heartbeat of a session, now.
    pub fn handle_heartbeat(&mut self, req: SessionHeartbeatRequest) -> (heartbeat: Option<Event>)
        requires
            old(self).wf(),
            req.wf(),
        ensures
            final(self).wf(),
            exists|now: Timestamp| #[trigger]
                is_clock_reading(now) && final(self)@ == old(self)@.after_heartbeat(req@, now)
                    && optional_event(heartbeat) == old(self)@.session_heartbeat(req@, now),
    {
        assert(is_clock_reading(Timestamp { secs: 0, nanos: 0 }));
        let now = reported_or_now(req.heartbeat_at);
        self.handle_heartbeat_at(req, now)
    }

    /// Takes in a heartbeat of a session, sampled at `now` where the request
    /// does not say when. The result is the heartbeat to send.
    pub fn handle_heartbeat_at(&mut self, req: SessionHeartbeatRequest, now: Timestamp) -> (heartbeat:
        Option<Event>)
        requires
            old(self).wf(),
            req.wf(),
            now.wf(),
        ensures
            final(self).wf(),
            final(self)@ == old(self)@.after_heartbeat(req@, now),
            optional_event(heartbeat) == old(self)@.session_heartbeat(req@, now),
    {
        let ghost before = self@;
        let place = match self.find(&req.key()) {
            Some(place) => place,
            None => {
                return None;
            },
        };
        let at = req.heartbeat_at.unwrap_or(now);
        let ghost marked = before.sessions[place as int].marked(at, ttl());
        assert(self@.sessions[place as int].wf());
        self.sessions[place].mark_active(at, active_ttl());
        proof {
            lemma_replaced(before.sessions, marked);
            assert(self@.sessions =~= replaced(before.sessions, marked));
        }
        self.build_aggregate_heartbeat_event(None, at)
    }
}

impl SessionActor {
    /// Says what has to be done for a session to end, now.
    pub fn handle_end(&self, req: SessionEndRequest, candidate_cost: Cost) -> (plan: Result<
        EndPlan,
        CommandError,
    >)
        requires
            self.wf(),
            req.wf(),
        ensures
            plan is Ok <==> has_key(self@.sessions, req@.key),
            plan is Ok ==> exists|now: Timestamp| #[trigger]
                is_clock_reading(now) && (plan->Ok_0)@ == self@.end_plan(
                    lookup(self@.sessions, req@.key)->0,
                    req@,
                    candidate_cost@,
                    now,
                ),
            plan is Err ==> (plan->Err_0).status == ApiStatus::NotFound,
            plan is Err ==> (plan->Err_0).error@ == unknown_session_text(req@.key),
    {
        assert(is_clock_reading(Timestamp { secs: 0, nanos: 0 }));
        let now = reported_or_now(req.ended_at);
        self.handle_end_at(req, candidate_cost, now)
    }

    /// Says what has to be done for a session to end, at `now` where the
    /// request does not say when. `candidate_cost` is the sum of the
    /// [costs by model](SessionActor::candidate_costs). Nothing is changed
    /// before the [outcome](SessionActor::complete_end) is known.
    pub fn handle_end_at(&self, req: SessionEndRequest, candidate_cost: Cost, now: Timestamp) -> (plan:
        Result<EndPlan, CommandError>)
        requires
            self.wf(),
            req.wf(),
            now.wf(),
        ensures
            plan is Ok <==> has_key(self@.sessions, req@.key),
            plan is Ok ==> (plan->Ok_0)@ == self@.end_plan(
                lookup(self@.sessions, req@.key)->0,
                req@,
                candidate_cost@,
                now,
            ),
            plan is Err ==> (plan->Err_0).status == ApiStatus::NotFound,
            plan is Err ==> (plan->Err_0).error@ == unknown_session_text(req@.key),
    {
        let key = req.key();
        let place = match self.find(&key) {
            Some(place) => place,
            None => {
                return Err(unknown_session(&key));
            },
        };
        let ended_at = req.ended_at.unwrap_or(now);
        assert(self@.sessions[place as int].wf());
        let mut session = self.sessions[place].clone();
        let was_active = session.is_active_at(ended_at, active_ttl());
        if was_active {
            session.mark_active(ended_at, active_ttl());
        }
        session.apply_end(req, candidate_cost);
        let heartbeat = if was_active {
            self.build_aggregate_heartbeat_event(Some(&session), ended_at)
        } else {
            None
        };
        let summary = session.summary_event("completed", ended_at, None);
        Ok(EndPlan { heartbeat, summary: self.unless_recorded(summary) })
    }

    /// Ends the session, unless its summary could not be recorded.
    pub fn complete_end(&mut self, key: &SessionKey, outcome: &SummaryOutcome) -> (reply: Result<
        SessionResponse,
        CommandError,
    >)
        requires
            old(self).wf(),
        ensures
            final(self).wf(),
            final(self)@ == old(self)@.after_end(key@, outcome@),
            reply is Err <==> outcome@ is Failed,
            reply is Ok ==> (reply->Ok_0).ok && (reply->Ok_0).session_id@ == key@.session_id,
            reply is Err ==> (reply->Err_0).status == ApiStatus::BadGateway,
            reply is Err ==> (reply->Err_0).error@ == summary_failed_text(outcome@->Failed_0),
    {
        if let SummaryOutcome::Failed(cause) = outcome {
            return Err(summary_failed(cause.as_str()));
        }
        self.settle(outcome);
        let _ = self.take_session(key);
        Ok(SessionResponse::ok(key.session_id.clone()))
    }

    /// Keeps the name of the summary, if it was recorded.
    pub fn settle(&mut self, outcome: &SummaryOutcome)
        requires
            old(self).wf(),
        ensures
            final(self).wf(),
            final(self)@ == old(self)@.settled(outcome@),
    {
        if let SummaryOutcome::Recorded(event) = outcome {
            if let Some(id) = summary_id_from_event(event) {
                self.remember_summary_id(id);
            }
        }
    }

    /// Keeps the name of a summary that was recorded.
    pub fn remember_summary_id(&mut self, summary_id: String)
        requires
            old(self).wf(),
        ensures
            final(self).wf(),
            final(self)@ == (ActorView {
                recorded: remembered(old(self)@.recorded, summary_id@),
                ..old(self)@
            }),
    {
        self.recorded.remember(summary_id);
    }

    /// The keys of the sessions that have timed out by now.
    pub fn handle_sweep(&self) -> (keys: Vec<SessionKey>)
        requires
            self.wf(),
        ensures
            exists|now: Timestamp| #[trigger]
                is_clock_reading(now) && keys_view(keys@) == timed_out_keys(self@.sessions, now),
    {
        let now = utc_now();
        self.handle_sweep_at(now)
    }

    /// The keys of the sessions that have timed out at `now`.
    pub fn handle_sweep_at(&self, now: Timestamp) -> (keys: Vec<SessionKey>)
        requires
            self.wf(),
            now.wf(),
        ensures
            keys_view(keys@) == timed_out_keys(self@.sessions, now),
    {
        let ghost sessions = self@.sessions;
        let timeout = abandon_timeout();
        let mut keys: Vec<SessionKey> = Vec::new();
        assert(keys_view(keys@) =~= timed_out_keys(sessions.take(0), now));
        for i in 0..self.sessions.len()
            invariant
                self.wf(),
                now.wf(),
                sessions == self@.sessions,
                timeout.nanos == ABANDON_TIMEOUT_SECS * NANOS_PER_SEC,
                keys_view(keys@) == timed_out_keys(sessions.take(i as int), now),
        {
            let session = &self.sessions[i];
            proof {
                assert(sessions[i as int] == session@ && sessions[i as int].wf());
                assert(sessions.take(i + 1).drop_last() =~= sessions.take(i as int));
                assert(sessions.take(i + 1).last() == session@);
            }
            let last = session.last_active_at.unwrap_or(session.started_at);
            if now.signed_duration_since(last).nanos > timeout.nanos {
                let ghost before = keys_view(keys@);
                keys.push(session.key.clone());
                assert(keys_view(keys@) =~= before.push(session@.key));
            }
        }
        assert(sessions.take(self.sessions.len() as int) =~= sessions);
        keys
    }

    /// The keys of all sessions.
    pub fn session_keys(&self) -> (keys: Vec<SessionKey>)
        ensures
            keys_view(keys@) == self@.sessions.map_values(|session: SessionView| session.key),
    {
        let mut keys: Vec<SessionKey> = Vec::new();
        for i in 0..self.sessions.len()
            invariant
                keys.len() == i,
                forall|j: int| 0 <= j < i ==> (#[trigger] keys@[j])@ == self.sessions@[j]@.key,
        {
            keys.push(self.sessions[i].key.clone());
        }
        assert(keys_view(keys@) =~= self@.sessions.map_values(
            |session: SessionView| session.key,
        ));
        keys
    }

    /// Takes the session out as abandoned for the reason given. The result is
    /// the session with the summary to record, if there is one.
    pub fn take_abandoned(&mut self, key: &SessionKey, reason: &str) -> (abandoned: Option<Abandoned>)
        requires
            old(self).wf(),
        ensures
            final(self).wf(),
            final(self)@ == old(self)@.after_abandoning(key@),
            optional_abandoned(abandoned) == old(self)@.abandoned(key@, reason@),
            abandoned is Some ==> (abandoned->0).session.wf(),
    {
        match self.take_session(key) {
            Some(mut session) => {
                match self.sum_up_abandoned(&mut session, reason) {
                    Some(summary) => Some(Abandoned { session, summary }),
                    None => None,
                }
            },
            None => None,
        }
    }

    /// Takes in what became of the summary of a session that had timed out.
    /// Where it could not be recorded the session is tracked on, until this has
    /// happened too often.
    pub fn complete_sweep(&mut self, session: ActiveSession, outcome: &SummaryOutcome)
        requires
            old(self).wf(),
            session.wf(),
        ensures
            final(self).wf(),
            final(self)@ == old(self)@.after_timeout(session@, outcome@),
    {
        if let SummaryOutcome::Failed(_) = outcome {
            let mut session = session;
            let failures = session.record_abandoned_summary_failure();
            if failures < ABANDONED_SUMMARY_MAX_FAILURES {
                let ghost before = self@.sessions;
                let _ = self.take_session(&session.key);
                let ghost rest = self@.sessions;
                proof {
                    lemma_without(before, session@.key);
                    lemma_push_keeps_keys_distinct(rest, session@);
                }
                self.sessions.push(session);
                assert(self@.sessions =~= rest.push(session@));
            }
        } else {
            self.settle(outcome);
        }
    }
}

proof fn lemma_all_wf_without(sessions: Seq<SessionView>, key: KeyView)
    requires
        forall|i: int| 0 <= i < sessions.len() ==> tracked_wf(#[trigger] sessions[i]),
    ensures
        forall|i: int|
            0 <= i < without(sessions, key).len() ==> tracked_wf(
                #[trigger] without(sessions, key)[i],
            ),
{
    let after = without(sessions, key);
    assert forall|i: int| 0 <= i < after.len() implies tracked_wf(#[trigger] after[i]) by {
        if has_key(sessions, key) && i >= place_of(sessions, key) {
            assert(after[i] == sessions[i + 1]);
        } else {
            assert(after[i] == sessions[i]);
        }
    }
}

} // verus!
