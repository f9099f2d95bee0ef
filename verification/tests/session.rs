//! Sessions: activity, usage, summaries.
use aw_watcher_agent::events::{
    Event, SessionEndRequest, SessionHeartbeatRequest, SessionStartRequest, SessionUpdateRequest,
};
use aw_watcher_agent::json::merge_metadata;
use aw_watcher_agent::session::ActiveSession;
use aw_watcher_agent::time::{TimeDelta, Timestamp};
use aw_watcher_agent::usage::{Cost, CostUsage, ModelUsage, TokenUsage};
use chrono::{DateTime, TimeZone, Utc};
use serde_json::Value;

fn at(offset_secs: i64) -> DateTime<Utc> {
    Utc.with_ymd_and_hms(2026, 5, 21, 0, 0, 0).unwrap() + chrono::TimeDelta::seconds(offset_secs)
}

fn ts(offset_secs: i64) -> Timestamp {
    Timestamp::new(at(offset_secs).timestamp(), 0).unwrap()
}

fn cost(amount: f64) -> Cost {
    Cost { bits: amount.to_bits(), number: Value::from(amount) }
}

fn amount(cost: &Option<Cost>) -> Option<f64> {
    cost.as_ref().map(|cost| f64::from_bits(cost.bits))
}

fn sum(session: &ActiveSession, model_usage: &Option<Vec<ModelUsage>>) -> Cost {
    let mut total = 0.0;
    for bits in session.candidate_costs(model_usage) {
        total += f64::from_bits(bits);
    }
    cost(total)
}

fn apply_update(session: &mut ActiveSession, req: SessionUpdateRequest) {
    let total = sum(session, &req.model_usage);
    session.apply_update(req, total);
}

fn apply_end(session: &mut ActiveSession, req: SessionEndRequest) {
    let total = sum(session, &req.model_usage);
    session.apply_end(req, total);
}

fn seconds(delta: TimeDelta) -> Value {
    Value::from(match delta.num_nanoseconds() {
        Some(nanos) => nanos as f64 / 1_000_000_000.0,
        None => delta.num_milliseconds() as f64 / 1_000.0,
    })
}

fn summary_event(
    session: &mut ActiveSession,
    status: &str,
    ended_at: Timestamp,
    reason: Option<&str>,
) -> Event {
    let summary = session.summary_event(status, ended_at, reason);
    let active = seconds(summary.event.duration);
    let wall = seconds(summary.wall_duration);
    summary.with_seconds(active, wall)
}

fn object(entries: Vec<(&str, Value)>) -> Value {
    let mut object = serde_json::Map::new();
    for (key, value) in entries {
        object.insert(key.to_string(), value);
    }
    Value::Object(object)
}

fn text(text: &str) -> Value {
    Value::String(text.to_string())
}

fn start_req() -> SessionStartRequest {
    SessionStartRequest {
        session_id: "session-1".to_string(),
        session_instance_id: Some("run-1".to_string()),
        code_agent: "codex".to_string(),
        project_dir: "/tmp/example-project".to_string(),
        model: Some("gpt-5".to_string()),
        started_at: Some(ts(0)),
        metadata: Some(object(vec![("source", text("test"))])),
    }
}

fn end_req() -> SessionEndRequest {
    SessionEndRequest {
        session_id: "session-1".to_string(),
        session_instance_id: Some("run-1".to_string()),
        code_agent: "codex".to_string(),
        ended_at: Some(ts(40)),
        tokens: None,
        cost: None,
        model_usage: None,
        metadata: None,
    }
}

fn update_req() -> SessionUpdateRequest {
    SessionUpdateRequest {
        session_id: "session-1".to_string(),
        session_instance_id: Some("run-1".to_string()),
        code_agent: "codex".to_string(),
        model: Some("gpt-5".to_string()),
        tokens: None,
        cost: None,
        model_usage: None,
        active: None,
        active_at: None,
        metadata: None,
    }
}

#[test]
fn mark_active_accumulates_contiguous_periods_and_ignores_clock_regression() {
    let mut session = ActiveSession::from_start(start_req());
    let ttl = TimeDelta::seconds(15);

    session.mark_active(ts(10), ttl);
    assert_eq!(session.first_active_at, Some(ts(10)));
    assert_eq!(session.active_duration(), TimeDelta::zero());

    session.mark_active(ts(20), ttl);
    assert_eq!(session.active_duration(), TimeDelta::seconds(10));

    session.mark_active(ts(50), ttl);
    assert_eq!(session.active_duration(), TimeDelta::seconds(10));

    session.mark_active(ts(60), ttl);
    assert_eq!(session.active_duration(), TimeDelta::seconds(20));

    session.mark_active(ts(55), ttl);
    assert_eq!(session.last_active_at, Some(ts(60)));
    assert_eq!(session.active_duration(), TimeDelta::seconds(20));

    session.finish_active_period();
    assert_eq!(session.active_duration(), TimeDelta::seconds(20));
}

#[test]
fn merge_metadata_merges_objects_and_replaces_other_values() {
    let nested = || object(vec![("kept", Value::Bool(true))]);
    let mut target = Some(object(vec![("source", text("start")), ("nested", nested())]));

    merge_metadata(
        &mut target,
        Some(object(vec![("source", text("end")), ("tokens", Value::from(42))])),
    );
    assert_eq!(
        target,
        Some(object(vec![
            ("source", text("end")),
            ("nested", nested()),
            ("tokens", Value::from(42)),
        ]))
    );

    merge_metadata(&mut target, Some(Value::Array(vec![text("replace")])));
    assert_eq!(target, Some(Value::Array(vec![text("replace")])));

    merge_metadata(&mut target, None);
    assert_eq!(target, Some(Value::Array(vec![text("replace")])));
}

#[test]
fn metadata_replaces_what_is_no_object() {
    let mut target = Some(text("plain"));
    merge_metadata(&mut target, Some(object(vec![("a", Value::from(1))])));
    assert_eq!(target, Some(object(vec![("a", Value::from(1))])));

    let mut nothing = None;
    merge_metadata(&mut nothing, Some(Value::Null));
    assert_eq!(nothing, Some(Value::Null));
    let mut still_nothing = None;
    merge_metadata(&mut still_nothing, None);
    assert_eq!(still_nothing, None);
}

#[test]
fn abandoned_summary_failures_are_counted() {
    let mut session = ActiveSession::from_start(start_req());

    assert_eq!(session.record_abandoned_summary_failure(), 1);
    assert_eq!(session.record_abandoned_summary_failure(), 2);

    session.abandoned_summary_failures = u32::MAX;
    assert_eq!(session.record_abandoned_summary_failure(), u32::MAX);
}

#[test]
fn summary_event_contains_stable_identity_duration_and_usage_fields() {
    let mut session = ActiveSession::from_start(start_req());
    let ttl = TimeDelta::seconds(30);
    session.mark_active(ts(5), ttl);
    session.mark_active(ts(20), ttl);
    apply_end(
        &mut session,
        SessionEndRequest {
            tokens: Some(TokenUsage { input: Some(12), output: Some(8), ..Default::default() }),
            cost: Some(CostUsage {
                total: Some(cost(0.25)),
                currency: Some("USD".to_string()),
            }),
            model_usage: Some(vec![ModelUsage {
                model: "gpt-5".to_string(),
                tokens: TokenUsage { input: Some(12), output: Some(8), ..Default::default() },
                cost: cost(0.25),
            }]),
            metadata: Some(object(vec![("status", text("done"))])),
            ..end_req()
        },
    );

    let event = summary_event(&mut session, "completed", ts(40), None);
    let data = &event.data;
    let expected_summary_id = format!(
        "codex:session-1:run-1:completed:none:{}:{}",
        at(0).to_rfc3339(),
        at(40).to_rfc3339()
    );

    assert_eq!(event.id, None);
    assert_eq!(event.timestamp, ts(5));
    assert_eq!(event.duration, TimeDelta::seconds(15));
    assert_eq!(data.get("status"), Some(&text("completed")));
    assert_eq!(data.get("summary_id"), Some(&Value::String(expected_summary_id)));
    assert_eq!(data.get("project"), Some(&text("example-project")));
    assert_eq!(data.get("session_id"), Some(&text("session-1")));
    assert_eq!(data.get("session_instance_id"), Some(&text("run-1")));
    assert_eq!(data.get("tokens_input"), Some(&Value::from(12)));
    assert_eq!(data.get("tokens_output"), Some(&Value::from(8)));
    assert_eq!(data.get("tokens_total"), Some(&Value::from(20)));
    assert_eq!(data.get("cost_total"), Some(&Value::from(0.25)));
    assert_eq!(data.get("selected_model"), Some(&text("gpt-5")));
    assert_eq!(
        data.get("metadata"),
        Some(&object(vec![("source", text("test")), ("status", text("done"))]))
    );
    assert_eq!(data.get("active_duration_seconds").and_then(Value::as_f64), Some(15.0));
    assert_eq!(data.get("wall_duration_seconds").and_then(Value::as_f64), Some(40.0));

    let model_usage = data
        .get("model_usage")
        .and_then(Value::as_object)
        .and_then(|usage| usage.get("gpt-5"))
        .and_then(Value::as_object)
        .expect("gpt-5 model usage should be present");
    assert_eq!(model_usage.get("tokens_total"), Some(&Value::from(20)));
    assert_eq!(model_usage.get("cost"), Some(&Value::from(0.25)));

    assert_eq!(data.get("file"), Some(&text("/tmp/example-project")));
    assert_eq!(data.get("project_dir"), Some(&text("/tmp/example-project")));
    assert_eq!(data.get("language"), Some(&text("code-agent")));
    assert_eq!(data.get("code_agent"), Some(&text("codex")));
    assert_eq!(data.get("cost_currency"), Some(&text("USD")));
    assert_eq!(data.get("reason"), None);
    assert_eq!(data.get("started_at"), Some(&text("2026-05-21T00:00:00+00:00")));
    assert_eq!(data.get("ended_at"), Some(&text("2026-05-21T00:00:40+00:00")));
    assert_eq!(data.get("first_active_at"), Some(&text("2026-05-21T00:00:05+00:00")));
    assert_eq!(data.get("last_active_at"), Some(&text("2026-05-21T00:00:20+00:00")));
}

#[test]
fn summary_without_activity_or_usage_leaves_fields_out() {
    let mut session = ActiveSession::from_start(SessionStartRequest {
        session_instance_id: None,
        model: None,
        metadata: None,
        ..start_req()
    });
    let event = summary_event(&mut session, "abandoned", ts(40), Some("timeout"));

    assert_eq!(event.timestamp, ts(0));
    assert_eq!(event.duration, TimeDelta::zero());
    assert_eq!(
        event.data.get("summary_id"),
        Some(&text(
            "codex:session-1:legacy:abandoned:timeout:2026-05-21T00:00:00+00:00:2026-05-21T00:00:40+00:00"
        ))
    );
    assert_eq!(event.data.get("reason"), Some(&text("timeout")));
    for name in [
        "session_instance_id",
        "first_active_at",
        "last_active_at",
        "tokens_input",
        "tokens_total",
        "cost_total",
        "cost_currency",
        "metadata",
        "selected_model",
        "model",
        "model_usage",
    ] {
        assert!(!event.data.contains_key(name), "{}", name);
    }
    assert_eq!(event.data.len(), 13);
}

#[test]
fn summary_model_is_multiple_when_model_usage_has_multiple_models() {
    let mut session = ActiveSession::from_start(start_req());
    apply_end(
        &mut session,
        SessionEndRequest {
            model_usage: Some(vec![
                ModelUsage {
                    model: "gpt-5".to_string(),
                    tokens: TokenUsage { input: Some(10), ..Default::default() },
                    cost: cost(0.1),
                },
                ModelUsage {
                    model: "gpt-5-mini".to_string(),
                    tokens: TokenUsage { output: Some(5), ..Default::default() },
                    cost: cost(0.02),
                },
            ]),
            ..end_req()
        },
    );

    let data = session.to_summary_data("completed", ts(40), None);

    assert_eq!(data.get("model"), Some(&text("multiple")));
    assert!(data.get("models").is_none());
    assert_eq!(
        data.get("model_usage").and_then(Value::as_object).map(|usage| usage.len()),
        Some(2)
    );
    assert_eq!(data.get("tokens_total"), Some(&Value::from(15)));
    assert_eq!(data.get("cost_total"), Some(&Value::from(0.1 + 0.02)));
}

#[test]
fn finishing_activity_at_preserves_duration_and_allows_a_new_period() {
    let mut session = ActiveSession::from_start(start_req());
    let ttl = TimeDelta::seconds(25);

    session.mark_active(ts(10), ttl);
    session.finish_active_period_at(ts(25));
    assert_eq!(session.active_duration(), TimeDelta::seconds(15));
    assert!(!session.is_active_at(ts(25), ttl));

    session.mark_active(ts(40), ttl);
    session.mark_active(ts(50), ttl);
    assert_eq!(session.active_duration(), TimeDelta::seconds(25));
}

#[test]
fn finishing_without_a_current_period_does_nothing() {
    let mut session = ActiveSession::from_start(start_req());
    session.finish_active_period_at(ts(25));
    session.finish_active_period();
    assert_eq!(session.last_active_at, None);
    assert!(!session.has_been_active());
    assert_eq!(session.active_duration(), TimeDelta::zero());

    session.mark_active(ts(10), TimeDelta::seconds(25));
    assert!(session.has_been_active());
    session.finish_active_period_at(ts(5));
    assert_eq!(session.last_active_at, Some(ts(10)));
    session.finish_active_period_at(ts(50));
    assert_eq!(session.last_active_at, Some(ts(10)));
}

#[test]
fn a_session_is_active_up_to_and_including_its_ttl() {
    let mut session = ActiveSession::from_start(start_req());
    let ttl = TimeDelta::seconds(50);
    assert!(!session.is_active_at(ts(0), ttl));
    session.mark_active(ts(10), ttl);
    assert!(session.is_active_at(ts(0), ttl));
    assert!(session.is_active_at(ts(60), ttl));
    assert!(!session.is_active_at(Timestamp::new(ts(60).secs, 1).unwrap(), ttl));

    // A sign right at the end of the ttl prolongs the period; a later one does not.
    session.mark_active(ts(60), ttl);
    assert_eq!(session.active_duration(), TimeDelta::seconds(50));
    session.mark_active(Timestamp::new(ts(110).secs, 1).unwrap(), ttl);
    assert_eq!(session.active_duration(), TimeDelta::seconds(50));
    assert_eq!(session.active_started_at, Some(Timestamp::new(ts(110).secs, 1).unwrap()));
}

#[test]
fn wall_duration_runs_from_the_start() {
    let session = ActiveSession::from_start(start_req());
    assert_eq!(session.wall_duration_until(ts(40)), TimeDelta::seconds(40));
    assert_eq!(session.wall_duration_until(ts(-7)), TimeDelta::seconds(-7));
}

#[test]
fn a_start_without_a_time_is_now() {
    let before = Utc::now();
    let session =
        ActiveSession::from_start(SessionStartRequest { started_at: None, ..start_req() });
    let after = Utc::now();
    let started =
        DateTime::from_timestamp(session.started_at.secs, session.started_at.nanos).unwrap();
    assert!(before <= started && started <= after);

    let chosen = ActiveSession::from_start_at(
        SessionStartRequest { started_at: None, ..start_req() },
        "name".to_string(),
        ts(3),
    );
    assert_eq!(chosen.started_at, ts(3));
    assert_eq!(chosen.project_name, "name");
    let told = ActiveSession::from_start_at(start_req(), "name".to_string(), ts(3));
    assert_eq!(told.started_at, ts(0));
    assert_eq!(ActiveSession::from_start(start_req()).project_name, "example-project");
}

#[test]
fn update_snapshot_is_kept_for_abandoned_summary() {
    let mut session = ActiveSession::from_start(start_req());
    apply_update(
        &mut session,
        SessionUpdateRequest {
            tokens: Some(TokenUsage { input: Some(10), output: Some(5), ..Default::default() }),
            cost: Some(CostUsage {
                total: Some(cost(0.1)),
                currency: Some("USD".to_string()),
            }),
            model_usage: Some(vec![ModelUsage {
                model: "gpt-5".to_string(),
                tokens: TokenUsage { input: Some(10), output: Some(5), ..Default::default() },
                cost: cost(0.1),
            }]),
            ..update_req()
        },
    );

    let data = session.to_summary_data("abandoned", ts(40), Some("timeout"));
    assert_eq!(data.get("tokens_total"), Some(&Value::from(15)));
    assert_eq!(data.get("cost_total"), Some(&Value::from(0.1)));
    assert!(data.get("model_usage").is_some());
}

#[test]
fn unique_usage_model_wins_over_selected_model() {
    let mut session = ActiveSession::from_start(start_req());
    apply_end(
        &mut session,
        SessionEndRequest {
            model_usage: Some(vec![ModelUsage {
                model: "provider/actual-model".to_string(),
                tokens: TokenUsage {
                    input: Some(7),
                    output: Some(3),
                    total: Some(10),
                    ..Default::default()
                },
                cost: cost(0.2),
            }]),
            ..end_req()
        },
    );

    let data = session.to_summary_data("completed", ts(40), None);
    assert_eq!(data.get("model"), Some(&text("provider/actual-model")));
    assert_eq!(data.get("selected_model"), Some(&text("gpt-5")));
}

#[test]
fn selected_model_stands_in_where_no_model_was_used() {
    let session = ActiveSession::from_start(start_req());
    let data = session.to_summary_data("completed", ts(40), None);
    assert_eq!(data.get("model"), Some(&text("gpt-5")));
    assert_eq!(data.get("selected_model"), Some(&text("gpt-5")));
}

fn snapshot(input: u64, output: u64, amount: f64) -> SessionUpdateRequest {
    let tokens = TokenUsage {
        input: Some(input),
        output: Some(output),
        total: Some(input + output),
        ..Default::default()
    };
    SessionUpdateRequest {
        tokens: Some(tokens),
        cost: Some(CostUsage {
            total: Some(cost(amount)),
            currency: Some("USD".to_string()),
        }),
        model_usage: Some(vec![ModelUsage {
            model: "gpt-5".to_string(),
            tokens,
            cost: cost(amount),
        }]),
        ..update_req()
    }
}

#[test]
fn usage_snapshots_are_monotonic_and_derived_from_models() {
    let mut session = ActiveSession::from_start(start_req());

    apply_update(&mut session, snapshot(10, 5, 0.1));
    apply_update(&mut session, snapshot(4, 2, 0.04));

    assert_eq!(session.tokens.input, Some(10));
    assert_eq!(session.tokens.output, Some(5));
    assert_eq!(session.tokens.total, Some(15));
    assert_eq!(amount(&session.cost.total), Some(0.1));
    assert_eq!(session.cost.currency.as_deref(), Some("USD"));
}

#[test]
fn partial_model_usage_cannot_regress_top_level_snapshot() {
    let mut session = ActiveSession::from_start(start_req());
    apply_update(
        &mut session,
        SessionUpdateRequest {
            tokens: Some(TokenUsage { input: Some(100), total: Some(100), ..Default::default() }),
            cost: Some(CostUsage {
                total: Some(cost(1.0)),
                currency: Some("USD".to_string()),
            }),
            ..update_req()
        },
    );

    apply_update(
        &mut session,
        SessionUpdateRequest {
            tokens: Some(TokenUsage { input: Some(10), total: Some(10), ..Default::default() }),
            cost: Some(CostUsage {
                total: Some(cost(0.1)),
                currency: Some("USD".to_string()),
            }),
            model_usage: Some(vec![ModelUsage {
                model: "gpt-5".to_string(),
                tokens: TokenUsage { input: Some(10), total: Some(10), ..Default::default() },
                cost: cost(0.1),
            }]),
            ..update_req()
        },
    );

    assert_eq!(session.tokens.input, Some(100));
    assert_eq!(session.tokens.total, Some(100));
    assert_eq!(amount(&session.cost.total), Some(1.0));
    assert!(session.model_usage.is_empty());
}

#[test]
fn totals_without_models_do_not_change_usage_by_model() {
    let mut session = ActiveSession::from_start(start_req());
    apply_update(&mut session, snapshot(10, 5, 0.1));
    apply_update(
        &mut session,
        SessionUpdateRequest {
            tokens: Some(TokenUsage { total: Some(9999), ..Default::default() }),
            cost: Some(CostUsage {
                total: Some(cost(77.0)),
                currency: Some("EUR".to_string()),
            }),
            ..update_req()
        },
    );
    assert_eq!(session.tokens.total, Some(15));
    assert_eq!(amount(&session.cost.total), Some(0.1));
    assert_eq!(session.cost.currency.as_deref(), Some("USD"));
}

#[test]
fn usage_by_model_adds_up_over_models_and_reports() {
    let mut session = ActiveSession::from_start(start_req());
    apply_update(&mut session, snapshot(10, 5, 0.1));
    let mini = ModelUsage {
        model: "gpt-5-mini".to_string(),
        tokens: TokenUsage { cache_read: Some(3), ..Default::default() },
        cost: cost(0.5),
    };
    apply_update(
        &mut session,
        SessionUpdateRequest { model_usage: Some(vec![mini.clone(), mini]), ..update_req() },
    );
    assert_eq!(session.model_usage.len(), 2);
    assert_eq!(
        session.tokens,
        TokenUsage {
            input: Some(10),
            output: Some(5),
            cache_read: Some(3),
            cache_write: None,
            total: Some(18),
        }
    );
    assert_eq!(amount(&session.cost.total), Some(0.1 + 0.5));
    assert_eq!(session.candidate_costs(&None), vec![0.1f64.to_bits(), 0.5f64.to_bits()]);
}

#[test]
fn rows_of_usage_by_model_are_never_lost_or_lowered() {
    let mut session = ActiveSession::from_start(start_req());
    apply_update(&mut session, snapshot(10, 5, 0.1));
    let other = ModelUsage {
        model: "other".to_string(),
        tokens: TokenUsage { input: Some(1), ..Default::default() },
        cost: cost(0.3),
    };
    apply_update(
        &mut session,
        SessionUpdateRequest { model_usage: Some(vec![other]), ..update_req() },
    );
    apply_update(&mut session, snapshot(20, 1, 0.05));
    assert_eq!(session.model_usage.len(), 2);
    assert_eq!(session.model_usage[0].model, "gpt-5");
    assert_eq!(session.model_usage[0].tokens.input, Some(20));
    assert_eq!(session.model_usage[0].tokens.output, Some(5));
    assert_eq!(f64::from_bits(session.model_usage[0].cost.bits), 0.1);
    assert_eq!(session.model_usage[1].tokens.input, Some(1));
    for row in &session.model_usage {
        assert_eq!(row.cost.number, Value::from(f64::from_bits(row.cost.bits)));
    }
    let total = session.cost.total.unwrap();
    assert_eq!(total.number, Value::from(f64::from_bits(total.bits)));
}

#[test]
fn usage_with_a_cost_that_is_no_number_is_not_taken_in() {
    let mut session = ActiveSession::from_start(start_req());
    apply_update(&mut session, snapshot(10, 5, f64::NAN));
    assert!(session.model_usage.is_empty());
    assert_eq!(session.tokens, TokenUsage::default());
    apply_update(&mut session, SessionUpdateRequest { cost: None, ..snapshot(10, 5, -0.5) });
    assert!(session.model_usage.is_empty());
    apply_update(&mut session, snapshot(10, 5, -0.5));
    assert_eq!(amount(&session.cost.total), Some(-0.5));
}

#[test]
fn a_start_that_is_sent_again_only_describes() {
    let mut session = ActiveSession::from_start(start_req());
    session.mark_active(ts(10), TimeDelta::seconds(50));
    let again = || SessionStartRequest {
        project_dir: "/elsewhere".to_string(),
        model: Some("gpt-6".to_string()),
        started_at: Some(ts(30)),
        metadata: Some(object(vec![("more", Value::from(1))])),
        ..start_req()
    };
    session.apply_start(again());
    assert_eq!(session.project_dir, "/tmp/example-project");
    assert_eq!(session.started_at, ts(0));
    assert_eq!(session.last_active_at, Some(ts(10)));
    assert_eq!(session.model.as_deref(), Some("gpt-6"));
    let merged = Some(object(vec![("source", text("test")), ("more", Value::from(1))]));
    assert_eq!(session.metadata, merged);

    session.apply_start(again());
    assert_eq!(session.model.as_deref(), Some("gpt-6"));
    assert_eq!(session.metadata, merged);
    session.apply_start(SessionStartRequest { model: None, metadata: None, ..start_req() });
    assert_eq!(session.model.as_deref(), Some("gpt-6"));
    assert_eq!(session.metadata, merged);
}

#[test]
fn active_time_fits_between_the_first_and_the_last_sign() {
    let mut session = ActiveSession::from_start(start_req());
    let ttl = TimeDelta::seconds(50);
    let mut before = TimeDelta::zero();
    for offset in [3, 20, 15, 90, 100, 400, 401, 399] {
        session.mark_active(ts(offset), ttl);
        let active = session.active_duration();
        assert!(active.nanos >= before.nanos);
        let first = session.first_active_at.unwrap();
        let last = session.last_active_at.unwrap();
        assert!(active.nanos <= last.signed_duration_since(first).nanos);
        before = active;
    }
    assert_eq!(session.first_active_at, Some(ts(3)));
    assert_eq!(session.last_active_at, Some(ts(401)));
    assert_eq!(before, TimeDelta::seconds(17 + 10 + 1));
}

#[test]
fn active_time_adds_up_the_gaps_within_the_ttl() {
    let ttl = TimeDelta::seconds(50);
    for signs in [
        vec![3],
        vec![3, 20, 15, 90, 100, 400, 401, 399],
        vec![100, 0, 50, 150, 201, 10],
        vec![5, 5, 55, 106, 156],
    ] {
        let mut session = ActiveSession::from_start(start_req());
        let mut latest = signs[0];
        let mut expected = 0;
        for sign in &signs {
            session.mark_active(ts(*sign), ttl);
            let next = latest.max(*sign);
            if next - latest <= 50 {
                expected += next - latest;
            }
            latest = next;
        }
        assert_eq!(session.active_duration(), TimeDelta::seconds(expected), "{:?}", signs);
        assert_eq!(session.first_active_at, Some(ts(signs[0])));
        assert_eq!(session.last_active_at, Some(ts(latest)));
        assert!(expected <= latest - signs[0]);
    }
}

#[test]
fn total_cost_is_the_sum_over_models_whatever_happens() {
    let mut session = ActiveSession::from_start(start_req());
    let matches = |session: &ActiveSession| {
        let mut sum = 0.0;
        for row in &session.model_usage {
            sum += f64::from_bits(row.cost.bits);
        }
        session.model_usage.is_empty() || amount(&session.cost.total) == Some(sum)
    };
    let other = ModelUsage {
        model: "other".to_string(),
        tokens: TokenUsage::default(),
        cost: cost(0.3),
    };
    apply_update(&mut session, snapshot(10, 5, 0.1));
    assert!(matches(&session));
    apply_update(
        &mut session,
        SessionUpdateRequest { model_usage: Some(vec![other]), ..update_req() },
    );
    assert!(matches(&session));
    apply_update(
        &mut session,
        SessionUpdateRequest {
            cost: Some(CostUsage { total: Some(cost(9.0)), currency: None }),
            ..update_req()
        },
    );
    assert!(matches(&session));
    session.mark_active(ts(5), TimeDelta::seconds(50));
    session.apply_start(start_req());
    session.finish_active_period();
    assert!(matches(&session));
    apply_end(
        &mut session,
        SessionEndRequest { model_usage: snapshot(30, 5, 0.7).model_usage, ..end_req() },
    );
    assert!(matches(&session));
    assert_eq!(amount(&session.cost.total), Some(0.7 + 0.3));
}

#[test]
fn copies_of_requests_hold_the_same() {
    let start = start_req();
    let copy = start.clone();
    assert_eq!(copy.session_id, start.session_id);
    assert_eq!(copy.session_instance_id, start.session_instance_id);
    assert_eq!(copy.code_agent, start.code_agent);
    assert_eq!(copy.project_dir, start.project_dir);
    assert_eq!(copy.model, start.model);
    assert_eq!(copy.started_at, start.started_at);
    assert_eq!(copy.metadata, start.metadata);

    let update = SessionUpdateRequest {
        active: Some(false),
        active_at: Some(ts(4)),
        metadata: Some(text("note")),
        ..snapshot(1, 2, 0.5)
    };
    let copy = update.clone();
    assert_eq!(format!("{:?}", copy), format!("{:?}", update));

    let end = SessionEndRequest { model_usage: update.model_usage, ..end_req() };
    assert_eq!(format!("{:?}", end.clone()), format!("{:?}", end));

    let beat = SessionHeartbeatRequest {
        session_id: "s".to_string(),
        session_instance_id: None,
        code_agent: "a".to_string(),
        heartbeat_at: Some(ts(9)),
    };
    assert_eq!(format!("{:?}", beat.clone()), format!("{:?}", beat));
}

#[test]
fn instances_of_one_session_have_summaries_of_their_own() {
    let one = ActiveSession::from_start(start_req());
    let two = ActiveSession::from_start(SessionStartRequest {
        session_instance_id: Some("run-2".to_string()),
        ..start_req()
    });
    let name = |session: &ActiveSession| {
        session.to_summary_data("completed", ts(40), None).get("summary_id").cloned()
    };
    assert_eq!(name(&one), name(&one));
    assert_ne!(name(&one), name(&two));
}

#[test]
fn a_copy_of_a_session_is_its_equal() {
    let mut session = ActiveSession::from_start(start_req());
    session.mark_active(ts(10), TimeDelta::seconds(50));
    apply_update(&mut session, snapshot(10, 5, 0.1));
    let copy = session.clone();
    assert_eq!(
        copy.to_summary_data("completed", ts(40), None),
        session.to_summary_data("completed", ts(40), None)
    );
    assert_eq!(copy.active_duration(), session.active_duration());
}
