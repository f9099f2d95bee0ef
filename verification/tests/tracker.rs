//! The tracker of all sessions.
use aw_watcher_agent::actor::{
    abandon_timeout, active_ttl, summary_id_from_event, Abandoned, EndPlan, SessionActor,
    SummaryOutcome, ABANDONED_SUMMARY_MAX_FAILURES,
};
use aw_watcher_agent::api::ApiStatus;
use aw_watcher_agent::events::{
    Event, SessionEndRequest, SessionHeartbeatRequest, SessionKey, SessionStartRequest,
    SessionUpdateRequest,
};
use aw_watcher_agent::heartbeat::single_or_multiple;
use aw_watcher_agent::paths::project_name_from_dir;
use aw_watcher_agent::session::SummaryEvent;
use aw_watcher_agent::time::{TimeDelta, Timestamp};
use aw_watcher_agent::usage::{Cost, ModelUsage, TokenUsage};
use serde_json::Value;

fn ts(offset_secs: i64) -> Timestamp {
    // 2026-05-21T00:00:00Z
    Timestamp::new(1_779_321_600 + offset_secs, 0).unwrap()
}

fn cost(amount: f64) -> Cost {
    Cost { bits: amount.to_bits(), number: Value::from(amount) }
}

fn text(text: &str) -> Value {
    Value::String(text.to_string())
}

fn texts(list: &[&str]) -> Value {
    Value::Array(list.iter().map(|one| text(one)).collect())
}

fn tracker() -> SessionActor {
    SessionActor::new("event-bucket".to_string(), "sum-bucket".to_string())
}

fn key(agent: &str, session: &str, instance: Option<&str>) -> SessionKey {
    SessionKey::new(agent.to_string(), session.to_string(), instance.map(str::to_string))
}

fn start(key: &SessionKey, dir: &str, model: Option<&str>) -> SessionStartRequest {
    SessionStartRequest {
        session_id: key.session_id.clone(),
        session_instance_id: key.session_instance_id.clone(),
        code_agent: key.code_agent.clone(),
        project_dir: dir.to_string(),
        model: model.map(str::to_string),
        started_at: Some(ts(0)),
        metadata: None,
    }
}

fn beat(key: &SessionKey, at: Option<Timestamp>) -> SessionHeartbeatRequest {
    SessionHeartbeatRequest {
        session_id: key.session_id.clone(),
        session_instance_id: key.session_instance_id.clone(),
        code_agent: key.code_agent.clone(),
        heartbeat_at: at,
    }
}

fn update(key: &SessionKey, active: Option<bool>, at: Option<Timestamp>) -> SessionUpdateRequest {
    SessionUpdateRequest {
        session_id: key.session_id.clone(),
        session_instance_id: key.session_instance_id.clone(),
        code_agent: key.code_agent.clone(),
        model: None,
        tokens: None,
        cost: None,
        model_usage: None,
        active,
        active_at: at,
        metadata: None,
    }
}

fn end(key: &SessionKey, at: Option<Timestamp>) -> SessionEndRequest {
    SessionEndRequest {
        session_id: key.session_id.clone(),
        session_instance_id: key.session_instance_id.clone(),
        code_agent: key.code_agent.clone(),
        ended_at: at,
        tokens: None,
        cost: None,
        model_usage: None,
        metadata: None,
    }
}

fn record(summary: SummaryEvent) -> SummaryOutcome {
    SummaryOutcome::Recorded(summary.with_seconds(Value::from(1.0), Value::from(2.0)))
}

fn failed() -> SummaryOutcome {
    SummaryOutcome::Failed("down".to_string())
}

fn begin(
    actor: &mut SessionActor,
    req: SessionStartRequest,
    now: Timestamp,
) -> Option<SummaryEvent> {
    let name = project_name_from_dir(&req.project_dir);
    actor.handle_start_at(req, name, now)
}

fn one(actor: &mut SessionActor) -> SessionKey {
    let run = key("pi", "s-1", Some("run-1"));
    assert!(begin(actor, start(&run, "/w/demo", Some("m")), ts(0)).is_none());
    run
}

fn session_ids(event: &Event) -> Vec<String> {
    event
        .data
        .get("sessions")
        .and_then(Value::as_array)
        .unwrap()
        .iter()
        .map(|item| item.get("session_id").and_then(Value::as_str).unwrap().to_string())
        .collect()
}

#[test]
fn windows_are_fifty_and_three_hundred_seconds() {
    assert_eq!(active_ttl(), TimeDelta::seconds(50));
    assert_eq!(abandon_timeout(), TimeDelta::seconds(300));
    let actor = tracker();
    assert_eq!(actor.event_bucket_id, "event-bucket");
    assert_eq!(actor.sum_bucket_id, "sum-bucket");
    assert_eq!(actor.session_count(), 0);
}

#[test]
fn a_heartbeat_is_sent_at_the_time_it_was_sampled() {
    let mut actor = tracker();
    let run = one(&mut actor);
    let event = actor.handle_heartbeat_at(beat(&run, Some(ts(10))), ts(12)).unwrap();
    assert_eq!(event.id, None);
    assert_eq!(event.timestamp, ts(10));
    assert_eq!(event.duration, TimeDelta::zero());
    assert_eq!(event.data.get("status"), Some(&text("active")));
    assert_eq!(event.data.get("language"), Some(&text("code-agent")));
    assert_eq!(event.data.get("project"), Some(&text("demo")));
    assert_eq!(event.data.get("file"), Some(&text("/w/demo")));
    assert_eq!(event.data.get("active_session_count"), Some(&Value::from(1)));
    assert_eq!(event.data.get("code_agents"), Some(&texts(&["pi"])));
    assert_eq!(event.data.get("projects"), Some(&texts(&["demo"])));
    assert_eq!(event.data.get("project_dirs"), Some(&texts(&["/w/demo"])));
    assert_eq!(event.data.get("models"), Some(&texts(&["m"])));
    let item = event.data.get("sessions").and_then(|list| list.get(0)).unwrap();
    assert_eq!(item.get("code_agent"), Some(&text("pi")));
    assert_eq!(item.get("session_id"), Some(&text("s-1")));
    assert_eq!(item.get("session_instance_id"), Some(&text("run-1")));
    assert_eq!(item.get("project"), Some(&text("demo")));
    assert_eq!(item.get("project_dir"), Some(&text("/w/demo")));
    assert_eq!(item.get("model"), Some(&text("m")));
    assert_eq!(item.as_object().unwrap().len(), 6);

    // Without a sampling time, the time of arrival counts.
    let event = actor.handle_heartbeat_at(beat(&run, None), ts(30)).unwrap();
    assert_eq!(event.timestamp, ts(30));
    // One that is older than the last sign is still sent on.
    let event = actor.handle_heartbeat_at(beat(&run, Some(ts(20))), ts(31)).unwrap();
    assert_eq!(event.timestamp, ts(20));
    assert_eq!(actor.sessions[0].last_active_at, Some(ts(30)));
}

#[test]
fn sessions_that_are_active_together_are_merged_in_order() {
    let mut actor = tracker();
    let runs = [
        (key("pi", "z", Some("1")), "/w/virt", Some("m2")),
        (key("codex", "y", None), "/w/demo", None),
        (key("pi", "a", Some("1")), "/w/demo", Some("m1")),
        (key("pi", "idle", None), "/w/idle", Some("m3")),
        (key("pi", "a", Some("2")), "/w/demo", Some("m1")),
    ];
    for (run, dir, model) in &runs {
        begin(&mut actor, start(run, dir, *model), ts(0));
    }
    assert_eq!(actor.session_count(), 5);
    for (run, _, _) in &runs {
        if run.session_id != "idle" {
            actor.handle_heartbeat_at(beat(run, None), ts(10));
        }
    }
    let event = actor.build_aggregate_heartbeat_event(None, ts(60)).unwrap();
    assert_eq!(session_ids(&event), vec!["y", "a", "a", "z"]);
    assert_eq!(event.data.get("project"), Some(&text("multiple")));
    assert_eq!(event.data.get("file"), Some(&text("multiple")));
    assert_eq!(event.data.get("active_session_count"), Some(&Value::from(4)));
    assert_eq!(event.data.get("code_agents"), Some(&texts(&["codex", "pi"])));
    assert_eq!(event.data.get("projects"), Some(&texts(&["demo", "virt"])));
    assert_eq!(event.data.get("project_dirs"), Some(&texts(&["/w/demo", "/w/virt"])));
    assert_eq!(event.data.get("models"), Some(&texts(&["m1", "m2"])));
    let first = event.data.get("sessions").and_then(|list| list.get(0)).unwrap();
    assert_eq!(first.as_object().unwrap().len(), 4);

    assert!(actor.build_aggregate_heartbeat_event(None, ts(61)).is_none());
    assert_eq!(single_or_multiple(&vec![]), "multiple");
    assert_eq!(single_or_multiple(&vec!["x".to_string()]), "x");
}

#[test]
fn an_override_takes_the_place_of_its_session() {
    let mut actor = tracker();
    let run = one(&mut actor);
    actor.handle_heartbeat_at(beat(&run, None), ts(10));
    let mut other = actor.sessions[0].clone();
    other.model = Some("newer".to_string());
    let event = actor.build_aggregate_heartbeat_event(Some(&other), ts(11)).unwrap();
    assert_eq!(event.data.get("models"), Some(&texts(&["newer"])));

    other.key.session_id = "unknown".to_string();
    let event = actor.build_aggregate_heartbeat_event(Some(&other), ts(11)).unwrap();
    assert_eq!(event.data.get("models"), Some(&texts(&["m"])));
}

#[test]
fn unknown_sessions_are_ignored_or_refused() {
    let mut actor = tracker();
    let run = one(&mut actor);
    for other in
        [key("codex", "s-1", Some("run-1")), key("pi", "s-2", Some("run-1")), key("pi", "s-1", None)]
    {
        assert!(actor.handle_heartbeat_at(beat(&other, None), ts(10)).is_none());
        assert!(actor
            .handle_update_at(update(&other, Some(true), None), cost(0.0), ts(10))
            .is_none());
        assert!(actor.candidate_costs(&other, &None).is_none());
        let refused = actor.handle_end_at(end(&other, None), cost(0.0), ts(10)).unwrap_err();
        assert_eq!(refused.status, ApiStatus::NotFound);
        assert_eq!(
            refused.error,
            format!("unknown session: {}/{}", other.code_agent, other.session_id)
        );
        assert!(actor.take_abandoned(&other, "timeout").is_none());
    }
    assert_eq!(actor.session_count(), 1);
    assert!(!actor.sessions[0].has_been_active());
    assert!(actor.candidate_costs(&run, &None).is_some());
}

#[test]
fn an_update_is_a_sign_of_activity_while_the_session_is_active() {
    let mut actor = tracker();
    let run = one(&mut actor);

    // An update alone does not make a session active, whatever it says.
    for active in [None, Some(false), Some(true)] {
        assert!(actor.handle_update_at(update(&run, active, None), cost(0.0), ts(5)).is_none());
        assert!(!actor.sessions[0].has_been_active());
    }

    actor.handle_heartbeat_at(beat(&run, Some(ts(8))), ts(8));
    let event = actor.handle_update_at(update(&run, None, None), cost(0.0), ts(20)).unwrap();
    assert_eq!(event.timestamp, ts(20));
    let event =
        actor.handle_update_at(update(&run, Some(true), Some(ts(24))), cost(0.0), ts(25)).unwrap();
    assert_eq!(event.timestamp, ts(24));
    assert_eq!(actor.sessions[0].active_duration(), TimeDelta::seconds(16));

    let event =
        actor.handle_update_at(update(&run, Some(false), Some(ts(30))), cost(0.0), ts(31)).unwrap();
    assert_eq!(event.timestamp, ts(30));
    assert_eq!(actor.sessions[0].active_duration(), TimeDelta::seconds(22));
    assert!(!actor.sessions[0].is_active_at(ts(30), active_ttl()));

    assert!(actor.handle_update_at(update(&run, Some(true), None), cost(0.0), ts(32)).is_none());
    assert_eq!(actor.sessions[0].active_duration(), TimeDelta::seconds(22));
}

#[test]
fn the_same_update_twice_is_one_update() {
    let mut actor = tracker();
    let run = one(&mut actor);
    actor.handle_heartbeat_at(beat(&run, Some(ts(8))), ts(8));
    for active in [None, Some(true), Some(false)] {
        let send = |actor: &mut SessionActor| {
            let usage = vec![
                ModelUsage {
                    model: "m".to_string(),
                    tokens: TokenUsage { input: Some(7), ..Default::default() },
                    cost: cost(0.5),
                },
                ModelUsage {
                    model: "m".to_string(),
                    tokens: TokenUsage { output: Some(2), ..Default::default() },
                    cost: cost(0.25),
                },
            ];
            actor.handle_update_at(
                SessionUpdateRequest {
                    model_usage: Some(usage),
                    metadata: Some(text("note")),
                    ..update(&run, active, Some(ts(20)))
                },
                cost(0.5),
                ts(20),
            );
            (
                actor.sessions[0].to_summary_data("completed", ts(40), None),
                actor.sessions[0].active_duration(),
                actor.sessions[0].active_started_at,
            )
        };
        let once = send(&mut actor);
        assert_eq!(send(&mut actor), once);
        assert_eq!(once.0.get("tokens_total"), Some(&Value::from(9)));
        assert_eq!(once.0.get("cost_total"), Some(&Value::from(0.5)));
    }
}

#[test]
fn an_update_brings_usage_and_description() {
    let mut actor = tracker();
    let run = one(&mut actor);
    let other = key("pi", "s-2", None);
    begin(&mut actor, start(&other, "/w/other", None), ts(0));
    let usage = vec![ModelUsage {
        model: "m".to_string(),
        tokens: TokenUsage { input: Some(7), ..Default::default() },
        cost: cost(0.5),
    }];
    let costs = actor.candidate_costs(&run, &Some(usage.clone())).unwrap();
    assert_eq!(costs, vec![0.5f64.to_bits()]);
    actor.handle_update_at(
        SessionUpdateRequest {
            model: Some("chosen".to_string()),
            model_usage: Some(usage),
            metadata: Some(text("note")),
            ..update(&run, None, None)
        },
        cost(0.5),
        ts(10),
    );
    assert_eq!(actor.sessions[0].tokens.total, Some(7));
    assert_eq!(actor.sessions[0].model.as_deref(), Some("chosen"));
    assert_eq!(actor.sessions[0].metadata, Some(text("note")));
    assert_eq!(actor.sessions[1].tokens, TokenUsage::default());
    assert_eq!(actor.sessions[1].model, None);
}

#[test]
fn an_end_plans_a_heartbeat_and_a_summary_and_changes_nothing_yet() {
    let mut actor = tracker();
    let run = one(&mut actor);
    actor.handle_heartbeat_at(beat(&run, Some(ts(10))), ts(10));
    let EndPlan { heartbeat, summary } = actor
        .handle_end_at(
            SessionEndRequest {
                tokens: Some(TokenUsage { input: Some(3), ..Default::default() }),
                ..end(&run, Some(ts(40)))
            },
            cost(0.0),
            ts(99),
        )
        .unwrap();
    let heartbeat = heartbeat.unwrap();
    assert_eq!(heartbeat.timestamp, ts(40));
    let summary = summary.unwrap();
    assert_eq!(summary.event.timestamp, ts(10));
    assert_eq!(summary.event.duration, TimeDelta::seconds(30));
    assert_eq!(summary.wall_duration, TimeDelta::seconds(40));
    assert_eq!(summary.event.data.get("status"), Some(&text("completed")));
    assert_eq!(summary.event.data.get("tokens_total"), Some(&Value::from(3)));
    assert_eq!(
        summary_id_from_event(&summary.event).unwrap(),
        "pi:s-1:run-1:completed:none:2026-05-21T00:00:00+00:00:2026-05-21T00:00:40+00:00"
    );
    assert_eq!(actor.sessions[0].last_active_at, Some(ts(10)));
    assert_eq!(actor.sessions[0].tokens, TokenUsage::default());

    // Long after the last sign there is no heartbeat, and the time in between
    // does not count.
    let plan = actor.handle_end_at(end(&run, None), cost(0.0), ts(61)).unwrap();
    assert!(plan.heartbeat.is_none());
    let summary = plan.summary.unwrap();
    assert_eq!(summary.event.duration, TimeDelta::zero());
    assert_eq!(
        summary.event.data.get("ended_at"),
        Some(&text("2026-05-21T00:01:01+00:00"))
    );
}

#[test]
fn a_session_ends_once_its_summary_is_recorded() {
    let mut actor = tracker();
    let run = one(&mut actor);
    actor.handle_heartbeat_at(beat(&run, Some(ts(10))), ts(10));
    let plan = actor.handle_end_at(end(&run, Some(ts(40))), cost(0.0), ts(40)).unwrap();

    let refused = actor.complete_end(&run, &failed()).unwrap_err();
    assert_eq!(refused.status, ApiStatus::BadGateway);
    assert_eq!(refused.error, "failed to write summary ActivityWatch event: down");
    assert_eq!(actor.session_count(), 1);
    assert!(actor.recorded.ids.is_empty());

    let again = actor.handle_end_at(end(&run, Some(ts(40))), cost(0.0), ts(41)).unwrap();
    let reply = actor.complete_end(&run, &record(again.summary.unwrap())).unwrap();
    assert!(reply.ok);
    assert_eq!(reply.session_id, "s-1");
    assert_eq!(actor.session_count(), 0);
    assert_eq!(actor.recorded.ids.len(), 1);
    drop(plan);
}

#[test]
fn a_summary_is_not_recorded_twice() {
    let mut actor = tracker();
    let run = one(&mut actor);
    actor.handle_heartbeat_at(beat(&run, Some(ts(10))), ts(10));
    let plan = actor.handle_end_at(end(&run, Some(ts(40))), cost(0.0), ts(40)).unwrap();
    actor.complete_end(&run, &record(plan.summary.unwrap())).unwrap();

    one(&mut actor);
    actor.handle_heartbeat_at(beat(&run, Some(ts(10))), ts(10));
    let plan = actor.handle_end_at(end(&run, Some(ts(40))), cost(0.0), ts(40)).unwrap();
    assert!(plan.summary.is_none());
    assert!(plan.heartbeat.is_some());
    actor.complete_end(&run, &SummaryOutcome::AlreadyRecorded).unwrap();
    assert_eq!(actor.session_count(), 0);
    assert_eq!(actor.recorded.ids.len(), 1);

    one(&mut actor);
    let plan = actor.handle_end_at(end(&run, Some(ts(41))), cost(0.0), ts(41)).unwrap();
    assert!(plan.summary.is_some());
}

#[test]
fn a_run_with_a_name_can_be_started_again() {
    let mut actor = tracker();
    let run = one(&mut actor);
    actor.handle_heartbeat_at(beat(&run, Some(ts(10))), ts(10));
    assert!(begin(&mut actor, start(&run, "/w/demo", Some("m2")), ts(20)).is_none());
    assert_eq!(actor.session_count(), 1);
    assert!(actor.sessions[0].has_been_active());
    assert_eq!(actor.sessions[0].model.as_deref(), Some("m2"));

    let resumed = key("pi", "s-1", Some("run-2"));
    assert!(begin(&mut actor, start(&resumed, "/w/demo", None), ts(20)).is_none());
    assert_eq!(actor.session_count(), 2);
}

#[test]
fn a_duplicate_start_without_a_name_abandons_the_session() {
    let mut actor = tracker();
    let run = key("pi", "s-1", None);
    assert!(begin(&mut actor, start(&run, "/w/demo", None), ts(0)).is_none());
    // It was never active, so there is nothing to record of it.
    assert!(begin(&mut actor, start(&run, "/w/demo", None), ts(5)).is_none());
    actor.handle_heartbeat_at(beat(&run, Some(ts(10))), ts(10));
    actor.handle_heartbeat_at(beat(&run, Some(ts(25))), ts(25));
    let summary = begin(&mut actor, start(&run, "/w/demo", None), ts(100)).unwrap();
    assert_eq!(summary.event.data.get("status"), Some(&text("abandoned")));
    assert_eq!(summary.event.data.get("reason"), Some(&text("duplicate_start")));
    assert_eq!(summary.event.data.get("ended_at"), Some(&text("2026-05-21T00:00:25+00:00")));
    assert_eq!(summary.event.duration, TimeDelta::seconds(15));
    assert_eq!(actor.session_count(), 1);
    assert!(!actor.sessions[0].has_been_active());

    actor.settle(&record(summary));
    actor.handle_heartbeat_at(beat(&run, Some(ts(25))), ts(25));
    assert!(begin(&mut actor, start(&run, "/w/demo", None), ts(100)).is_none());
}

#[test]
fn a_start_that_does_not_say_when_starts_now() {
    let mut actor = tracker();
    let run = key("pi", "s-1", None);
    begin(
        &mut actor,
        SessionStartRequest { started_at: None, ..start(&run, "/w", None) },
        ts(7),
    );
    assert_eq!(actor.sessions[0].started_at, ts(7));
}

#[test]
fn a_sweep_finds_sessions_without_a_sign_for_too_long() {
    let mut actor = tracker();
    let quiet = key("pi", "quiet", None);
    let busy = key("pi", "busy", None);
    begin(&mut actor, start(&quiet, "/w", None), ts(0));
    begin(&mut actor, start(&busy, "/w", None), ts(0));
    actor.handle_heartbeat_at(beat(&busy, None), ts(10));

    assert!(actor.handle_sweep_at(ts(300)).is_empty());
    let keys = actor.handle_sweep_at(ts(301));
    assert_eq!(keys.len(), 1);
    assert!(keys[0].same(&quiet));
    assert_eq!(actor.handle_sweep_at(ts(310)).len(), 1);
    let keys = actor.handle_sweep_at(ts(311));
    assert_eq!(keys.len(), 2);
    assert!(keys[1].same(&busy));
    assert_eq!(actor.session_count(), 2);

    // One that was never active leaves nothing behind.
    assert!(actor.take_abandoned(&quiet, "timeout").is_none());
    assert_eq!(actor.session_count(), 1);
    let Abandoned { session, summary } = actor.take_abandoned(&busy, "timeout").unwrap();
    assert_eq!(actor.session_count(), 0);
    assert_eq!(summary.event.data.get("status"), Some(&text("abandoned")));
    assert_eq!(summary.event.data.get("reason"), Some(&text("timeout")));
    assert_eq!(summary.event.data.get("ended_at"), Some(&text("2026-05-21T00:00:10+00:00")));
    actor.complete_sweep(session, &record(summary));
    assert_eq!(actor.session_count(), 0);
    assert_eq!(actor.recorded.ids.len(), 1);
}

#[test]
fn abandoned_sessions_keep_their_usage() {
    let mut actor = tracker();
    let run = one(&mut actor);
    actor.handle_heartbeat_at(beat(&run, None), ts(10));
    actor.handle_update_at(
        SessionUpdateRequest {
            tokens: Some(TokenUsage { input: Some(4), output: Some(2), ..Default::default() }),
            ..update(&run, None, Some(ts(20)))
        },
        cost(0.0),
        ts(20),
    );
    let abandoned = actor.take_abandoned(&run, "shutdown").unwrap();
    assert_eq!(abandoned.summary.event.data.get("tokens_total"), Some(&Value::from(6)));
    assert_eq!(abandoned.summary.event.data.get("reason"), Some(&text("shutdown")));
    assert_eq!(abandoned.summary.event.duration, TimeDelta::seconds(10));
}

#[test]
fn an_abandoned_session_is_given_up_after_ten_failures() {
    let mut actor = tracker();
    let run = one(&mut actor);
    actor.handle_heartbeat_at(beat(&run, None), ts(10));
    for round in 1..=ABANDONED_SUMMARY_MAX_FAILURES {
        let keys = actor.handle_sweep_at(ts(400));
        assert_eq!(keys.len(), 1);
        let abandoned = actor.take_abandoned(&keys[0], "timeout").unwrap();
        actor.complete_sweep(abandoned.session, &failed());
        if round < ABANDONED_SUMMARY_MAX_FAILURES {
            assert_eq!(actor.sessions[0].abandoned_summary_failures, round);
            assert_eq!(actor.sessions[0].last_active_at, Some(ts(10)));
        }
    }
    assert_eq!(ABANDONED_SUMMARY_MAX_FAILURES, 10);
    assert_eq!(actor.session_count(), 0);
    assert!(actor.recorded.ids.is_empty());
}

#[test]
fn a_sweep_leaves_what_is_still_to_do() {
    let mut actor = tracker();
    for name in ["written", "failed", "worn", "idle"] {
        let run = key("pi", name, None);
        begin(&mut actor, start(&run, "/w", None), ts(0));
        if name != "idle" {
            actor.handle_heartbeat_at(beat(&run, None), ts(10));
        }
    }
    let fresh = key("pi", "fresh", None);
    begin(&mut actor, start(&fresh, "/w", None), ts(0));
    actor.handle_heartbeat_at(beat(&fresh, None), ts(390));
    actor.sessions[2].abandoned_summary_failures = ABANDONED_SUMMARY_MAX_FAILURES - 1;

    let keys = actor.handle_sweep_at(ts(400));
    assert_eq!(keys.len(), 4);
    for run in &keys {
        if let Some(abandoned) = actor.take_abandoned(run, "timeout") {
            let outcome = if run.session_id == "written" {
                record(abandoned.summary)
            } else {
                failed()
            };
            actor.complete_sweep(abandoned.session, &outcome);
        }
    }
    let mut left: Vec<(&str, u32)> = actor
        .sessions
        .iter()
        .map(|session| (session.key.session_id.as_str(), session.abandoned_summary_failures))
        .collect();
    left.sort();
    assert_eq!(left, vec![("failed", 1), ("fresh", 0)]);
}

#[test]
fn a_drain_takes_every_session_out() {
    let mut actor = tracker();
    for name in ["a", "b", "c"] {
        let run = key("pi", name, None);
        begin(&mut actor, start(&run, "/w", None), ts(0));
        if name != "b" {
            actor.handle_heartbeat_at(beat(&run, None), ts(10));
        }
    }
    let keys = actor.session_keys();
    assert_eq!(keys.len(), 3);
    let mut summaries = 0;
    for run in &keys {
        if let Some(abandoned) = actor.take_abandoned(run, "shutdown") {
            summaries += 1;
            actor.settle(&record(abandoned.summary));
        }
    }
    assert_eq!(summaries, 2);
    assert_eq!(actor.session_count(), 0);
    assert_eq!(actor.recorded.ids.len(), 2);
    actor.settle(&failed());
    actor.settle(&SummaryOutcome::AlreadyRecorded);
    assert_eq!(actor.recorded.ids.len(), 2);
}

#[test]
fn an_active_session_is_not_swept() {
    let mut actor = tracker();
    let run = one(&mut actor);
    actor.handle_heartbeat_at(beat(&run, None), ts(1000));
    assert!(actor.sessions[0].is_active_at(ts(1050), active_ttl()));
    assert!(actor.handle_sweep_at(ts(1050)).is_empty());
}

#[test]
fn requests_without_a_time_count_from_now() {
    let mut actor = tracker();
    let run = key("pi", "s-1", None);
    let before = chrono::Utc::now().timestamp();
    let mut req = start(&run, "/w", None);
    req.started_at = None;
    assert!(actor.handle_start(req).is_none());
    let event = actor.handle_heartbeat(beat(&run, None)).unwrap();
    let updated = actor.handle_update(update(&run, None, None), cost(0.0)).unwrap();
    let plan = actor.handle_end(end(&run, None), cost(0.0)).unwrap();
    let after = chrono::Utc::now().timestamp();
    let ended = plan.heartbeat.unwrap();
    for at in [
        actor.sessions[0].started_at,
        event.timestamp,
        updated.timestamp,
        ended.timestamp,
        plan.summary.unwrap().event.timestamp,
    ] {
        assert!(before <= at.secs && at.secs <= after);
    }
    assert!(actor.handle_sweep().is_empty());

    let long_ago = key("pi", "old", None);
    actor.handle_start(start(&long_ago, "/w", None));
    actor.handle_start(SessionStartRequest {
        started_at: Timestamp::new(1_000, 0),
        ..start(&key("pi", "older", None), "/w", None)
    });
    let swept = actor.handle_sweep();
    assert!(swept.iter().any(|key| key.session_id == "older"));
    for key in &swept {
        actor.take_abandoned(key, "timeout");
    }
    assert!(actor.sessions.iter().all(|session| session.key.session_id != "older"));
    assert!(actor.sessions.iter().any(|session| session.key.session_id == "s-1"));
    assert!(actor.handle_sweep().is_empty());
}

#[test]
fn only_summaries_have_names() {
    let mut actor = tracker();
    let run = one(&mut actor);
    let event = actor.handle_heartbeat_at(beat(&run, None), ts(10)).unwrap();
    assert_eq!(summary_id_from_event(&event), None);
    let mut odd = event;
    odd.data.insert("summary_id".to_string(), Value::from(5));
    assert_eq!(summary_id_from_event(&odd), None);
    actor.settle(&SummaryOutcome::Recorded(odd));
    assert!(actor.recorded.ids.is_empty());
    actor.remember_summary_id("name".to_string());
    actor.remember_summary_id("name".to_string());
    assert_eq!(actor.recorded.ids.len(), 1);
}
