//! A session that is being tracked: its activity, its usage, its summary.
use vstd::prelude::*;
use vstd::string::StringExecFns;

use crate::events::{
    optional_wf, EndView, Event, EventView, KeyView, SessionEndRequest, SessionKey,
    SessionStartRequest, SessionUpdateRequest, StartView, UpdateView, UsageView,
};
use crate::json::{
    copy_optional_value, entries, insert_value, json, merge_metadata, merged_metadata, new_object,
    no_entries, object_value, optional_json, optional_text, optional_unsigned, put_optional_text,
    put_optional_unsigned, put_text, with_optional, Json,
};
use crate::paths::{is_project_name, project_name_from_dir};
use crate::text::{optional_str, optional_view};
use crate::time::{
    is_clock_reading, reported_or_now, rfc3339_text, to_rfc3339, TimeDelta, Timestamp,
    NANOS_PER_SEC,
};
use crate::usage::{
    aggregate_model_usage, aggregated, copy_usages, distinct_models, has_model, merge_cost_usage,
    model_row, optional_cost_usage, optional_usages, usage_covers, usage_is_covered, usages_view,
    with_snapshot, with_snapshots, Cost, CostUsage, CostUsageView, CostView, ModelUsage,
    ModelUsageView, TokenUsage,
};

verus! {

/// A session that is being tracked.
#[derive(Debug)]
pub struct ActiveSession {
    pub key: SessionKey,
    pub project_dir: String,
    pub project_name: String,
    pub model: Option<String>,
    pub tokens: TokenUsage,
    pub cost: CostUsage,
    /// The usage of each model, in the order in which the models were first
    /// reported.
    pub model_usage: Vec<ModelUsage>,
    pub started_at: Timestamp,
    pub first_active_at: Option<Timestamp>,
    pub last_active_at: Option<Timestamp>,
    /// When the current period of activity began, if there is one.
    pub active_started_at: Option<Timestamp>,
    /// The time that the past periods of activity took.
    pub past_duration: TimeDelta,
    pub abandoned_summary_failures: u32,
    pub metadata: Option<serde_json::Value>,
}

/// What an [`ActiveSession`] holds.
pub struct SessionView {
    pub key: KeyView,
    pub project_dir: Seq<char>,
    pub project_name: Seq<char>,
    pub model: Option<Seq<char>>,
    pub tokens: TokenUsage,
    pub cost: CostUsageView,
    pub model_usage: Seq<ModelUsageView>,
    pub started_at: Timestamp,
    pub first_active_at: Option<Timestamp>,
    pub last_active_at: Option<Timestamp>,
    pub active_started_at: Option<Timestamp>,
    pub past_duration: TimeDelta,
    pub abandoned_summary_failures: u32,
    pub metadata: Option<Json>,
}

impl View for ActiveSession {
    type V = SessionView;

    open spec fn view(&self) -> SessionView {
        SessionView {
            key: self.key@,
            project_dir: self.project_dir@,
            project_name: self.project_name@,
            model: optional_view(self.model),
            tokens: self.tokens,
            cost: self.cost@,
            model_usage: usages_view(self.model_usage@),
            started_at: self.started_at,
            first_active_at: self.first_active_at,
            last_active_at: self.last_active_at,
            active_started_at: self.active_started_at,
            past_duration: self.past_duration,
            abandoned_summary_failures: self.abandoned_summary_failures,
            metadata: optional_json(self.metadata),
        }
    }
}

/// The instant, or the other one where it is missing.
pub open spec fn instant_or(at: Option<Timestamp>, other: Timestamp) -> Timestamp {
    match at {
        Some(at) => at,
        None => other,
    }
}

/// A bound on the time from one instant to a later one that adds up over
/// periods that follow each other: with at most one leap second to each second,
/// no period is longer than twice the seconds that it spans.
pub open spec fn span_bound(from: Timestamp, to: Timestamp) -> int {
    2 * NANOS_PER_SEC * (to.secs - from.secs) + (to.nanos - from.nanos)
}

proof fn lemma_span(from: Timestamp, to: Timestamp)
    requires
        from.wf(),
        to.wf(),
        from.at_most(to),
    ensures
        to.nanos_since(from) <= span_bound(from, to),
        0 <= span_bound(from, to),
{
}

impl SessionView {
    /// What holds of every session: the first and the last sign of activity
    /// come together and in order, a current period of activity lies between
    /// them, the past periods fit in before it, no model has two rows of usage,
    /// and where the usage is known by model the totals are its sums.
    pub open spec fn wf(self) -> bool {
        &&& self.started_at.wf()
        &&& self.activity_wf()
        &&& distinct_models(self.model_usage)
        &&& self.model_usage.len() > 0 ==> self.tokens == aggregated(self.model_usage)
    }

    /// The part of [`SessionView::wf`] that is about activity.
    pub open spec fn activity_wf(self) -> bool {
        &&& optional_wf(self.first_active_at)
        &&& optional_wf(self.last_active_at)
        &&& optional_wf(self.active_started_at)
        &&& self.first_active_at is Some <==> self.last_active_at is Some
        &&& self.first_active_at is Some ==> (self.first_active_at->0).at_most(
            self.last_active_at->0,
        )
        &&& self.active_started_at is Some ==> {
            &&& self.first_active_at is Some
            &&& (self.first_active_at->0).at_most(self.active_started_at->0)
            &&& (self.active_started_at->0).at_most(self.last_active_at->0)
        }
        &&& 0 <= self.past_duration.nanos
        &&& self.first_active_at is None ==> self.past_duration.nanos == 0
        &&& self.first_active_at is Some ==> self.past_duration.nanos <= span_bound(
            self.first_active_at->0,
            instant_or(self.active_started_at, self.last_active_at->0),
        )
    }

    /// A session as it starts.
    pub open spec fn started(
        req: StartView,
        started_at: Timestamp,
        project_name: Seq<char>,
    ) -> SessionView {
        SessionView {
            key: req.key,
            project_dir: req.project_dir,
            project_name,
            model: req.model,
            tokens: TokenUsage::nothing(),
            cost: CostUsageView::nothing(),
            model_usage: seq![],
            started_at,
            first_active_at: None,
            last_active_at: None,
            active_started_at: None,
            past_duration: TimeDelta { nanos: 0 },
            abandoned_summary_failures: 0,
            metadata: req.metadata,
        }
    }

    /// The session with the newly reported model, if there is one, and with the
    /// reported metadata merged in.
    pub open spec fn with_description(
        self,
        model: Option<Seq<char>>,
        metadata: Option<Json>,
    ) -> SessionView {
        SessionView {
            model: if model is Some {
                model
            } else {
                self.model
            },
            metadata: merged_metadata(self.metadata, metadata),
            ..self
        }
    }

    /// The usage by model, once the reported usage is merged in.
    pub open spec fn candidate(self, reported: Option<Seq<ModelUsageView>>) -> Seq<ModelUsageView> {
        match reported {
            Some(incoming) => with_snapshots(self.model_usage, incoming),
            None => self.model_usage,
        }
    }

    /// The bits of the costs by model, once the reported usage is merged in.
    pub open spec fn candidate_costs(self, reported: Option<Seq<ModelUsageView>>) -> Seq<u64> {
        self.candidate(reported).map_values(|row: ModelUsageView| row.cost.bits)
    }

    /// The session with a report of usage taken in.
    ///
    /// Usage by model is taken in where its sums, with `candidate_cost` for the
    /// sum of the costs, are no smaller than the totals so far and the reported
    /// ones; the totals are then these sums. Otherwise the report is partial
    /// and nothing changes. Totals without usage by model only count as long as
    /// no usage by model is known.
    pub open spec fn with_usage(self, usage: UsageView, candidate_cost: CostView) -> SessionView {
        let totals = self.tokens.merged_with(usage.tokens);
        let costs = self.cost.merged_with(usage.cost);
        if usage.model_usage is None {
            if self.model_usage.len() == 0 {
                SessionView { tokens: totals, cost: costs, ..self }
            } else {
                self
            }
        } else {
            let table = self.candidate(usage.model_usage);
            if usage_is_covered(aggregated(table), candidate_cost, totals, costs.total) {
                SessionView {
                    model_usage: table,
                    tokens: aggregated(table),
                    cost: CostUsageView { total: Some(candidate_cost), currency: costs.currency },
                    ..self
                }
            } else {
                self
            }
        }
    }

    /// The session after an update.
    pub open spec fn updated(self, req: UpdateView, candidate_cost: CostView) -> SessionView {
        self.with_usage(req.usage, candidate_cost).with_description(req.model, req.metadata)
    }

    /// The session after its end was reported.
    pub open spec fn ended(self, req: EndView, candidate_cost: CostView) -> SessionView {
        self.with_usage(req.usage, candidate_cost).with_description(None, req.metadata)
    }

    /// The session after it was started once more.
    pub open spec fn restarted(self, req: StartView) -> SessionView {
        self.with_description(req.model, req.metadata)
    }

    /// The time that the current period of activity would have taken if it
    /// ended at `end`.
    pub open spec fn period_until(self, end: Timestamp) -> int {
        match self.active_started_at {
            Some(start) => if end.nanos_since(start) > 0 {
                end.nanos_since(start)
            } else {
                0
            },
            None => 0,
        }
    }

    /// The session with its current period of activity ended at `end`.
    pub open spec fn closed(self, end: Timestamp) -> SessionView {
        SessionView {
            active_started_at: None,
            past_duration: TimeDelta {
                nanos: (self.past_duration.nanos + self.period_until(end)) as i128,
            },
            ..self
        }
    }

    /// The instant, or the last sign of activity where that is later.
    pub open spec fn no_earlier_than_last(self, at: Timestamp) -> Timestamp {
        match self.last_active_at {
            Some(last) => at.latest(last),
            None => at,
        }
    }

    /// The session after a sign of activity. It begins a new period of activity
    /// where there is no current one, or where the last sign is longer ago than
    /// `ttl`; the time in between then counts for nothing.
    pub open spec fn marked(self, at: Timestamp, ttl: TimeDelta) -> SessionView {
        let at = self.no_earlier_than_last(at);
        let begins = self.active_started_at is None || (self.last_active_at is Some
            && at.nanos_since(self.last_active_at->0) > ttl.nanos);
        if begins {
            SessionView {
                first_active_at: Some(instant_or(self.first_active_at, at)),
                active_started_at: Some(at),
                last_active_at: Some(at),
                ..self.closed(instant_or(self.last_active_at, at))
            }
        } else {
            SessionView { last_active_at: Some(at), ..self }
        }
    }

    /// Whether the session counts as active at `now`: it has a current period
    /// of activity, and its last sign is no longer ago than `ttl`.
    pub open spec fn active_at(self, now: Timestamp, ttl: TimeDelta) -> bool {
        &&& self.active_started_at is Some
        &&& self.last_active_at is Some
        &&& now.nanos_since(self.last_active_at->0) <= ttl.nanos
    }

    /// Whether the session has ever shown a sign of activity.
    pub open spec fn ever_active(self) -> bool {
        self.first_active_at is Some
    }

    /// The session with its current period of activity, if there is one,
    /// prolonged to `at` and ended.
    pub open spec fn finished_at(self, at: Timestamp) -> SessionView {
        if self.active_started_at is None {
            self
        } else {
            let end = self.no_earlier_than_last(at);
            SessionView { last_active_at: Some(end), ..self.closed(end) }
        }
    }

    /// The session with its current period of activity, if there is one, ended
    /// at the last sign of activity.
    pub open spec fn finished(self) -> SessionView {
        match self.last_active_at {
            Some(last) => self.finished_at(last),
            None => self,
        }
    }

    /// The nanoseconds of activity so far.
    pub open spec fn active_nanos(self) -> int {
        match self.last_active_at {
            Some(last) => self.past_duration.nanos + self.period_until(last),
            None => self.past_duration.nanos as int,
        }
    }

    /// What names a summary of the session.
    pub open spec fn summary_id(
        self,
        status: Seq<char>,
        ended_at: Timestamp,
        reason: Option<Seq<char>>,
    ) -> Seq<char> {
        self.key.code_agent + ":"@ + self.key.session_id + ":"@ + match self.key.session_instance_id {
            Some(instance) => instance,
            None => "legacy"@,
        } + ":"@ + status + ":"@ + match reason {
            Some(reason) => reason,
            None => "none"@,
        } + ":"@ + rfc3339_text(self.started_at.secs, self.started_at.nanos) + ":"@ + rfc3339_text(
            ended_at.secs,
            ended_at.nanos,
        )
    }

    /// The model that a summary names: the one that has usage, `multiple` if
    /// several have, and the selected one if none has.
    pub open spec fn summary_model(self) -> Option<Seq<char>> {
        if self.model_usage.len() == 0 {
            self.model
        } else if self.model_usage.len() == 1 {
            Some(self.model_usage[0].model)
        } else {
            Some("multiple"@)
        }
    }

    /// The part of a summary that says what the session is, how it ended, and
    /// when.
    pub open spec fn identity_data(
        self,
        status: Seq<char>,
        ended_at: Timestamp,
        reason: Option<Seq<char>>,
    ) -> Map<Seq<char>, Json> {
        let data = no_entries();
        let data = data.insert("project"@, Json::Text(self.project_name));
        let data = data.insert("file"@, Json::Text(self.project_dir));
        let data = data.insert("language"@, Json::Text("code-agent"@));
        let data = data.insert("status"@, Json::Text(status));
        let data = with_optional(data, "reason"@, optional_text(reason));
        let data = data.insert(
            "summary_id"@,
            Json::Text(self.summary_id(status, ended_at, reason)),
        );
        let data = data.insert("session_id"@, Json::Text(self.key.session_id));
        let data = with_optional(
            data,
            "session_instance_id"@,
            optional_text(self.key.session_instance_id),
        );
        let data = data.insert("code_agent"@, Json::Text(self.key.code_agent));
        let data = data.insert("project_dir"@, Json::Text(self.project_dir));
        let data = data.insert("started_at"@, instant_json(self.started_at));
        let data = data.insert("ended_at"@, instant_json(ended_at));
        let data = with_optional(data, "first_active_at"@, optional_instant(self.first_active_at));
        with_optional(data, "last_active_at"@, optional_instant(self.last_active_at))
    }

    /// The entries with that part of a summary added that says what the session
    /// used.
    pub open spec fn with_usage_data(self, data: Map<Seq<char>, Json>) -> Map<Seq<char>, Json> {
        let data = with_tokens(data, self.tokens);
        let data = with_optional(data, "cost_total"@, cost_json(self.cost.total));
        let data = with_optional(data, "cost_currency"@, optional_text(self.cost.currency));
        let data = with_optional(data, "metadata"@, self.metadata);
        let data = with_optional(data, "selected_model"@, optional_text(self.model));
        let data = with_optional(data, "model"@, optional_text(self.summary_model()));
        if self.model_usage.len() > 0 {
            data.insert("model_usage"@, Json::Object(usage_by_model(self.model_usage)))
        } else {
            data
        }
    }

    /// The data of a summary, but for the lengths of time in seconds.
    pub open spec fn summary_data(
        self,
        status: Seq<char>,
        ended_at: Timestamp,
        reason: Option<Seq<char>>,
    ) -> Map<Seq<char>, Json> {
        self.with_usage_data(self.identity_data(status, ended_at, reason))
    }

    /// The summary of a session: it begins with the first sign of activity and
    /// takes as long as the session was active.
    pub open spec fn summary(
        self,
        status: Seq<char>,
        ended_at: Timestamp,
        reason: Option<Seq<char>>,
    ) -> SummaryView {
        SummaryView {
            event: EventView {
                id: None,
                timestamp: instant_or(self.first_active_at, self.started_at),
                duration: TimeDelta { nanos: self.active_nanos() as i128 },
                data: self.summary_data(status, ended_at, reason),
            },
            wall_duration: TimeDelta { nanos: ended_at.nanos_since(self.started_at) as i128 },
        }
    }
}

/// The instant as a JSON string.
pub open spec fn instant_json(at: Timestamp) -> Json {
    Json::Text(rfc3339_text(at.secs, at.nanos))
}

/// The instant as a JSON string, if it is there.
pub open spec fn optional_instant(at: Option<Timestamp>) -> Option<Json> {
    match at {
        Some(at) => Some(instant_json(at)),
        None => None,
    }
}

/// The number that the cost is reported as, if it is there.
pub open spec fn cost_json(cost: Option<CostView>) -> Option<Json> {
    match cost {
        Some(cost) => Some(cost.number),
        None => None,
    }
}

/// The entries with those token counts added that are known.
pub open spec fn with_tokens(data: Map<Seq<char>, Json>, tokens: TokenUsage) -> Map<Seq<char>, Json> {
    let data = with_optional(data, "tokens_input"@, optional_unsigned(tokens.input));
    let data = with_optional(data, "tokens_output"@, optional_unsigned(tokens.output));
    let data = with_optional(data, "tokens_cache_read"@, optional_unsigned(tokens.cache_read));
    let data = with_optional(data, "tokens_cache_write"@, optional_unsigned(tokens.cache_write));
    with_optional(data, "tokens_total"@, optional_unsigned(tokens.effective_total()))
}

/// The usage of one model, as an object.
pub open spec fn model_entries(row: ModelUsageView) -> Map<Seq<char>, Json> {
    with_tokens(no_entries(), row.tokens).insert("cost"@, row.cost.number)
}

/// The usage of each model under its name.
pub open spec fn usage_by_model(table: Seq<ModelUsageView>) -> Map<Seq<char>, Json>
    decreases table.len(),
{
    if table.len() == 0 {
        no_entries()
    } else {
        usage_by_model(table.drop_last()).insert(
            table.last().model,
            Json::Object(model_entries(table.last())),
        )
    }
}

/// Adds those token counts that are known.
pub fn insert_token_usage(
    data: &mut serde_json::Map<String, serde_json::Value>,
    usage: &TokenUsage,
)
    ensures
        entries(*final(data)) == with_tokens(entries(*old(data)), *usage),
{
    put_optional_unsigned(data, "tokens_input", usage.input);
    put_optional_unsigned(data, "tokens_output", usage.output);
    put_optional_unsigned(data, "tokens_cache_read", usage.cache_read);
    put_optional_unsigned(data, "tokens_cache_write", usage.cache_write);
    put_optional_unsigned(data, "tokens_total", usage.total_or_sum());
}

/// A summary that lacks the lengths of time in seconds.
#[derive(Debug)]
pub struct SummaryEvent {
    pub event: Event,
    /// The time from the start of the session to its end.
    pub wall_duration: TimeDelta,
}

/// What a [`SummaryEvent`] holds.
pub struct SummaryView {
    pub event: EventView,
    pub wall_duration: TimeDelta,
}

impl View for SummaryEvent {
    type V = SummaryView;

    open spec fn view(&self) -> SummaryView {
        SummaryView { event: self.event@, wall_duration: self.wall_duration }
    }
}

impl SummaryView {
    /// The event with the lengths of time in seconds added.
    pub open spec fn with_seconds(self, active_seconds: Json, wall_seconds: Json) -> EventView {
        EventView {
            data: self.event.data.insert("active_duration_seconds"@, active_seconds).insert(
                "wall_duration_seconds"@,
                wall_seconds,
            ),
            ..self.event
        }
    }
}

impl SummaryEvent {
    /// The event to record: the summary with the lengths of its duration and of
    /// its wall-clock duration, in seconds, added.
    pub fn with_seconds(
        self,
        active_seconds: serde_json::Value,
        wall_seconds: serde_json::Value,
    ) -> (event: Event)
        ensures
            event@ == self@.with_seconds(json(active_seconds), json(wall_seconds)),
    {
        let mut event = self.event;
        insert_value(&mut event.data, "active_duration_seconds".to_string(), active_seconds);
        insert_value(&mut event.data, "wall_duration_seconds".to_string(), wall_seconds);
        event
    }
}

proof fn lemma_row_found(table: Seq<ModelUsageView>, model: Seq<char>, at: int)
    requires
        distinct_models(table),
        0 <= at < table.len(),
        table[at].model == model,
    ensures
        has_model(table, model),
        model_row(table, model) == at,
{
    let row = model_row(table, model);
    assert(table[at].model == model);
    assert(0 <= row < table.len() && table[row].model == model);
}

pub(crate) proof fn lemma_snapshot_keeps_models_distinct(
    table: Seq<ModelUsageView>,
    incoming: ModelUsageView,
)
    requires
        distinct_models(table),
    ensures
        distinct_models(with_snapshot(table, incoming)),
{
    let after = with_snapshot(table, incoming);
    if has_model(table, incoming.model) {
        let row = model_row(table, incoming.model);
        assert forall|i: int, j: int| 0 <= i < j < after.len() implies (#[trigger] after[i]).model
            != (#[trigger] after[j]).model by {
            assert(after[i].model == table[i].model);
            assert(after[j].model == table[j].model);
        }
    } else {
        assert forall|i: int, j: int| 0 <= i < j < after.len() implies (#[trigger] after[i]).model
            != (#[trigger] after[j]).model by {
            assert(after[i] == table[i]);
            if j < table.len() {
                assert(after[j] == table[j]);
            }
        }
    }
}

/// The usage by model, with all the snapshots merged in.
fn merge_model_usage(table: &Vec<ModelUsage>, incoming: &Vec<ModelUsage>) -> (merged: Vec<
    ModelUsage,
>)
    requires
        distinct_models(usages_view(table@)),
    ensures
        usages_view(merged@) == with_snapshots(usages_view(table@), usages_view(incoming@)),
        distinct_models(usages_view(merged@)),
{
    let ghost before = usages_view(table@);
    let ghost reported = usages_view(incoming@);
    let mut merged = copy_usages(table);
    proof {
        assert(reported.take(0) =~= Seq::<ModelUsageView>::empty());
    }
    for i in 0..incoming.len()
        invariant
            before == usages_view(table@),
            reported == usages_view(incoming@),
            usages_view(merged@) == with_snapshots(before, reported.take(i as int)),
            distinct_models(usages_view(merged@)),
    {
        let ghost current = usages_view(merged@);
        let mut row: usize = 0;
        while row < merged.len() && !(merged[row].model == incoming[i].model)
            invariant
                i < incoming.len(),
                reported == usages_view(incoming@),
                row <= merged.len(),
                current == usages_view(merged@),
                forall|j: int| 0 <= j < row ==> (#[trigger] current[j]).model
                    != reported[i as int].model,
            decreases merged.len() - row,
        {
            assert(current[row as int].model == merged@[row as int].model@);
            row = row + 1;
        }
        proof {
            assert(reported.take(i + 1).drop_last() =~= reported.take(i as int));
            lemma_snapshot_keeps_models_distinct(current, reported[i as int]);
        }
        if row < merged.len() {
            proof {
                assert(current[row as int].model == reported[i as int].model);
                lemma_row_found(current, reported[i as int].model, row as int);
            }
            let mut tokens = merged[row].tokens;
            tokens.merge_max(incoming[i].tokens);
            let cost = merged[row].cost.clone().max(incoming[i].cost.clone());
            let model = merged[row].model.clone();
            merged.set(row, ModelUsage { model, tokens, cost });
            assert(usages_view(merged@) =~= with_snapshot(current, reported[i as int]));
        } else {
            merged.push(incoming[i].clone());
            assert(usages_view(merged@) =~= with_snapshot(current, reported[i as int]));
        }
    }
    proof {
        assert(reported.take(incoming.len() as int) =~= reported);
    }
    merged
}

impl ActiveSession {
    /// What holds of every session, see [`SessionView::wf`].
    pub open spec fn wf(&self) -> bool {
        self@.wf()
    }

    /// A new session. Where the request does not say when it started, it starts
    /// now.
    pub fn from_start(req: SessionStartRequest) -> (session: ActiveSession)
        requires
            req.wf(),
        ensures
            session.wf(),
            session@ == SessionView::started(req@, session.started_at, session.project_name@),
            req.started_at is Some ==> session.started_at == req.started_at->0,
            req.started_at is None ==> is_clock_reading(session.started_at),
            is_project_name(req@.project_dir, session.project_name@),
    {
        let now = reported_or_now(req.started_at);
        let project_name = project_name_from_dir(req.project_dir.as_str());
        ActiveSession::from_start_at(req, project_name, now)
    }

    /// A new session in the project of the given name. Where the request does
    /// not say when it started, it starts at `now`.
    pub fn from_start_at(req: SessionStartRequest, project_name: String, now: Timestamp) -> (session:
        ActiveSession)
        requires
            req.wf(),
            now.wf(),
        ensures
            session.wf(),
            session@ == SessionView::started(
                req@,
                instant_or(req.started_at, now),
                project_name@,
            ),
    {
        let key = req.key();
        let session = ActiveSession {
            key,
            project_dir: req.project_dir,
            project_name,
            model: req.model,
            tokens: TokenUsage::default(),
            cost: CostUsage::default(),
            model_usage: Vec::new(),
            started_at: req.started_at.unwrap_or(now),
            first_active_at: None,
            last_active_at: None,
            active_started_at: None,
            past_duration: TimeDelta::zero(),
            abandoned_summary_failures: 0,
            metadata: req.metadata,
        };
        assert(session@.model_usage =~= seq![]);
        session
    }

    /// Takes over what a start that was sent again says of the session, but for
    /// what identifies it.
    pub fn apply_start(&mut self, req: SessionStartRequest)
        ensures
            final(self)@ == old(self)@.restarted(req@),
    {
        if req.model.is_some() {
            self.model = req.model;
        }
        merge_metadata(&mut self.metadata, req.metadata);
    }

    /// The bits of the costs that have to be added up before a report of usage
    /// by model can be taken in: one for each model.
    pub fn candidate_costs(&self, model_usage: &Option<Vec<ModelUsage>>) -> (costs: Vec<u64>)
        requires
            self.wf(),
        ensures
            costs@ == self@.candidate_costs(optional_usages(*model_usage)),
    {
        let nothing: Vec<ModelUsage> = Vec::new();
        let incoming = match model_usage {
            Some(incoming) => incoming,
            None => &nothing,
        };
        let merged = merge_model_usage(&self.model_usage, incoming);
        let ghost table = self@.candidate(optional_usages(*model_usage));
        let mut costs: Vec<u64> = Vec::new();
        for i in 0..merged.len()
            invariant
                usages_view(merged@) == table,
                costs.len() == i,
                forall|j: int| 0 <= j < i ==> #[trigger] costs@[j] == table[j].cost.bits,
        {
            assert(table[i as int].cost.bits == merged@[i as int].cost.bits);
            costs.push(merged[i].cost.bits);
        }
        assert(costs@ =~= table.map_values(|row: ModelUsageView| row.cost.bits));
        costs
    }

    /// Takes in an update. `candidate_cost` is the sum of the
    /// [costs by model](ActiveSession::candidate_costs).
    pub fn apply_update(&mut self, req: SessionUpdateRequest, candidate_cost: Cost)
        requires
            old(self).wf(),
        ensures
            final(self).wf(),
            final(self)@ == old(self)@.updated(req@, candidate_cost@),
    {
        self.apply_usage(req.tokens, req.cost, req.model_usage, candidate_cost);
        if req.model.is_some() {
            self.model = req.model;
        }
        merge_metadata(&mut self.metadata, req.metadata);
    }

    /// Takes in what the end of the session reports. `candidate_cost` is the sum
    /// of the [costs by model](ActiveSession::candidate_costs).
    pub fn apply_end(&mut self, req: SessionEndRequest, candidate_cost: Cost)
        requires
            old(self).wf(),
        ensures
            final(self).wf(),
            final(self)@ == old(self)@.ended(req@, candidate_cost@),
    {
        self.apply_usage(req.tokens, req.cost, req.model_usage, candidate_cost);
        merge_metadata(&mut self.metadata, req.metadata);
    }

    /// Takes in a report of usage.
    pub fn apply_usage(
        &mut self,
        tokens: Option<TokenUsage>,
        cost: Option<CostUsage>,
        model_usage: Option<Vec<ModelUsage>>,
        candidate_cost: Cost,
    )
        requires
            old(self).wf(),
        ensures
            final(self).wf(),
            final(self)@ == old(self)@.with_usage(
                UsageView {
                    tokens,
                    cost: optional_cost_usage(cost),
                    model_usage: optional_usages(model_usage),
                },
                candidate_cost@,
            ),
    {
        let model_usage = match model_usage {
            Some(model_usage) => model_usage,
            None => {
                if self.model_usage.len() == 0 {
                    if let Some(tokens) = tokens {
                        self.tokens.merge_max(tokens);
                    }
                    if let Some(cost) = cost {
                        merge_cost_usage(&mut self.cost, cost);
                    }
                }
                return;
            },
        };

        let candidate = merge_model_usage(&self.model_usage, &model_usage);
        let candidate_tokens = aggregate_model_usage(&candidate);
        let mut baseline_tokens = self.tokens;
        if let Some(tokens) = tokens {
            baseline_tokens.merge_max(tokens);
        }
        let mut baseline_cost = self.cost.clone();
        if let Some(cost) = cost {
            merge_cost_usage(&mut baseline_cost, cost);
        }
        if !usage_covers(
            &candidate_tokens,
            &candidate_cost,
            &baseline_tokens,
            &baseline_cost.total,
        ) {
            return;
        }
        self.model_usage = candidate;
        self.tokens = candidate_tokens;
        self.cost.total = Some(candidate_cost);
        if baseline_cost.currency.is_some() {
            self.cost.currency = baseline_cost.currency;
        }
    }

    /// Notes a sign of activity.
    pub fn mark_active(&mut self, at: Timestamp, active_ttl: TimeDelta)
        requires
            old(self).wf(),
            at.wf(),
        ensures
            final(self).wf(),
            final(self)@ == old(self)@.marked(at, active_ttl),
    {
        let at = match self.last_active_at {
            Some(last) => at.max(last),
            None => at,
        };
        let begins = match (self.active_started_at, self.last_active_at) {
            (None, _) => true,
            (_, Some(last)) => at.signed_duration_since(last).nanos > active_ttl.nanos,
            _ => false,
        };
        if begins {
            if self.active_started_at.is_some() {
                if let Some(last) = self.last_active_at {
                    self.close_active_period_at(last);
                }
            }
            self.active_started_at = Some(at);
            if self.first_active_at.is_none() {
                self.first_active_at = Some(at);
            }
        }
        self.last_active_at = Some(at);
        proof {
            lemma_span(self.first_active_at->0, at);
        }
    }

    /// Whether the session counts as active at `now`.
    pub fn is_active_at(&self, now: Timestamp, active_ttl: TimeDelta) -> (active: bool)
        requires
            self.wf(),
            now.wf(),
        ensures
            active == self@.active_at(now, active_ttl),
    {
        match (self.active_started_at, self.last_active_at) {
            (Some(_), Some(last)) => now.signed_duration_since(last).nanos <= active_ttl.nanos,
            _ => false,
        }
    }

    /// Whether the session has ever shown a sign of activity.
    pub fn has_been_active(&self) -> (active: bool)
        ensures
            active == self@.ever_active(),
    {
        self.first_active_at.is_some()
    }

    /// Prolongs the current period of activity to `at`, and ends it.
    pub fn finish_active_period_at(&mut self, at: Timestamp)
        requires
            old(self).wf(),
            at.wf(),
        ensures
            final(self).wf(),
            final(self)@ == old(self)@.finished_at(at),
    {
        if self.active_started_at.is_none() {
            return;
        }
        let end = match self.last_active_at {
            Some(last) => at.max(last),
            None => at,
        };
        self.close_active_period_at(end);
        self.last_active_at = Some(end);
    }

    /// Ends the current period of activity at the last sign of activity.
    pub fn finish_active_period(&mut self)
        requires
            old(self).wf(),
        ensures
            final(self).wf(),
            final(self)@ == old(self)@.finished(),
    {
        if let Some(last) = self.last_active_at {
            self.finish_active_period_at(last);
        }
    }

    /// The time that the session has been active so far.
    pub fn active_duration(&self) -> (duration: TimeDelta)
        requires
            self.wf(),
        ensures
            duration.nanos == self@.active_nanos(),
    {
        let mut nanos: i128 = self.past_duration.nanos;
        if let (Some(start), Some(last)) = (self.active_started_at, self.last_active_at) {
            let current = last.signed_duration_since(start);
            if current.nanos > 0 {
                nanos = nanos + current.nanos;
            }
        }
        TimeDelta { nanos }
    }

    /// The time from the start of the session to `ended_at`.
    pub fn wall_duration_until(&self, ended_at: Timestamp) -> (duration: TimeDelta)
        requires
            self.wf(),
            ended_at.wf(),
        ensures
            duration.nanos == ended_at.nanos_since(self@.started_at),
    {
        ended_at.signed_duration_since(self.started_at)
    }

    /// Counts one more failure to record the summary, and gives the count.
    pub fn record_abandoned_summary_failure(&mut self) -> (failures: u32)
        ensures
            failures == if old(self).abandoned_summary_failures < u32::MAX {
                (old(self).abandoned_summary_failures + 1) as u32
            } else {
                u32::MAX
            },
            final(self)@ == (SessionView { abandoned_summary_failures: failures, ..old(self)@ }),
    {
        self.abandoned_summary_failures = self.abandoned_summary_failures.saturating_add(1);
        self.abandoned_summary_failures
    }

    /// Ends the current period of activity and sums the session up.
    pub fn summary_event(
        &mut self,
        status: &str,
        ended_at: Timestamp,
        reason: Option<&str>,
    ) -> (summary: SummaryEvent)
        requires
            old(self).wf(),
            ended_at.wf(),
        ensures
            final(self).wf(),
            final(self)@ == old(self)@.finished(),
            summary@ == old(self)@.finished().summary(status@, ended_at, optional_str(reason)),
    {
        self.finish_active_period();
        let duration = self.active_duration();
        let data = self.to_summary_data(status, ended_at, reason);
        SummaryEvent {
            event: Event {
                id: None,
                timestamp: self.first_active_at.unwrap_or(self.started_at),
                duration,
                data,
            },
            wall_duration: self.wall_duration_until(ended_at),
        }
    }

    /// The data of a summary, but for the lengths of time in seconds.
    pub fn to_summary_data(
        &self,
        status: &str,
        ended_at: Timestamp,
        reason: Option<&str>,
    ) -> (data: serde_json::Map<String, serde_json::Value>)
        requires
            self.wf(),
            ended_at.wf(),
        ensures
            entries(data) == self@.summary_data(status@, ended_at, optional_str(reason)),
    {
        let mut data = new_object();
        put_text(&mut data, "project", self.project_name.as_str());
        put_text(&mut data, "file", self.project_dir.as_str());
        put_text(&mut data, "language", "code-agent");
        put_text(&mut data, "status", status);
        if let Some(reason) = reason {
            put_text(&mut data, "reason", reason);
        }
        put_text(&mut data, "summary_id", self.summary_id(status, ended_at, reason).as_str());
        put_text(&mut data, "session_id", self.key.session_id.as_str());
        put_optional_text(&mut data, "session_instance_id", &self.key.session_instance_id);
        put_text(&mut data, "code_agent", self.key.code_agent.as_str());
        put_text(&mut data, "project_dir", self.project_dir.as_str());
        put_text(&mut data, "started_at", to_rfc3339(self.started_at).as_str());
        put_text(&mut data, "ended_at", to_rfc3339(ended_at).as_str());
        if let Some(at) = self.first_active_at {
            put_text(&mut data, "first_active_at", to_rfc3339(at).as_str());
        }
        if let Some(at) = self.last_active_at {
            put_text(&mut data, "last_active_at", to_rfc3339(at).as_str());
        }
        insert_token_usage(&mut data, &self.tokens);
        if let Some(total) = &self.cost.total {
            insert_value(&mut data, "cost_total".to_string(), total.number.clone());
        }
        put_optional_text(&mut data, "cost_currency", &self.cost.currency);
        if let Some(metadata) = &self.metadata {
            insert_value(&mut data, "metadata".to_string(), metadata.clone());
        }
        put_optional_text(&mut data, "selected_model", &self.model);
        if let Some(model) = self.summary_model() {
            put_text(&mut data, "model", model);
        }
        if self.model_usage.len() > 0 {
            let by_model = usage_object(&self.model_usage);
            insert_value(&mut data, "model_usage".to_string(), object_value(by_model));
        }
        data
    }

    /// Ends the current period of activity at `end`.
    fn close_active_period_at(&mut self, end: Timestamp)
        requires
            old(self).wf(),
            old(self)@.active_started_at is Some,
            end.wf(),
            (old(self)@.last_active_at->0).at_most(end),
        ensures
            final(self)@ == old(self)@.closed(end),
            final(self)@.past_duration.nanos == old(self)@.past_duration.nanos + old(
                self,
            )@.period_until(end),
            (SessionView { last_active_at: Some(end), ..final(self)@ }).wf(),
    {
        if let Some(start) = self.active_started_at {
            let duration = end.signed_duration_since(start);
            proof {
                lemma_span(start, end);
                lemma_span(self.first_active_at->0, start);
            }
            if duration.nanos > 0 {
                self.past_duration = TimeDelta { nanos: self.past_duration.nanos + duration.nanos };
            }
            self.active_started_at = None;
        }
    }

    /// What names a summary of the session.
    fn summary_id(&self, status: &str, ended_at: Timestamp, reason: Option<&str>) -> (id: String)
        requires
            self.wf(),
            ended_at.wf(),
        ensures
            id@ == self@.summary_id(status@, ended_at, optional_str(reason)),
    {
        let mut id = self.key.code_agent.clone();
        id.append(":");
        id.append(self.key.session_id.as_str());
        id.append(":");
        match &self.key.session_instance_id {
            Some(instance) => id.append(instance.as_str()),
            None => id.append("legacy"),
        }
        id.append(":");
        id.append(status);
        id.append(":");
        match reason {
            Some(reason) => id.append(reason),
            None => id.append("none"),
        }
        id.append(":");
        id.append(to_rfc3339(self.started_at).as_str());
        id.append(":");
        id.append(to_rfc3339(ended_at).as_str());
        id
    }

    /// The model that a summary names.
    fn summary_model(&self) -> (model: Option<&str>)
        ensures
            optional_str(model) == self@.summary_model(),
    {
        if self.model_usage.len() == 0 {
            match &self.model {
                Some(model) => Some(model.as_str()),
                None => None,
            }
        } else if self.model_usage.len() == 1 {
            Some(self.model_usage[0].model.as_str())
        } else {
            Some("multiple")
        }
    }
}

impl Clone for ActiveSession {
    fn clone(&self) -> (copy: ActiveSession)
        ensures
            copy@ == self@,
    {
        ActiveSession {
            key: self.key.clone(),
            project_dir: self.project_dir.clone(),
            project_name: self.project_name.clone(),
            model: self.model.clone(),
            tokens: self.tokens,
            cost: self.cost.clone(),
            model_usage: copy_usages(&self.model_usage),
            started_at: self.started_at,
            first_active_at: self.first_active_at,
            last_active_at: self.last_active_at,
            active_started_at: self.active_started_at,
            past_duration: self.past_duration,
            abandoned_summary_failures: self.abandoned_summary_failures,
            metadata: copy_optional_value(&self.metadata),
        }
    }
}

/// The usage of each model under its name.
fn usage_object(table: &Vec<ModelUsage>) -> (object: serde_json::Map<String, serde_json::Value>)
    ensures
        entries(object) == usage_by_model(usages_view(table@)),
{
    let ghost rows = usages_view(table@);
    let mut object = new_object();
    assert(rows.take(0) =~= Seq::<ModelUsageView>::empty());
    for i in 0..table.len()
        invariant
            rows == usages_view(table@),
            entries(object) == usage_by_model(rows.take(i as int)),
    {
        let usage = &table[i];
        let mut row = new_object();
        insert_token_usage(&mut row, &usage.tokens);
        insert_value(&mut row, "cost".to_string(), usage.cost.number.clone());
        insert_value(&mut object, usage.model.clone(), object_value(row));
        proof {
            assert(rows.take(i + 1).drop_last() =~= rows.take(i as int));
            assert(rows.take(i + 1).last() == usage@);
        }
    }
    assert(rows.take(table.len() as int) =~= rows);
    object
}

} // verus!
