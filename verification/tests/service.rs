//! Replies, retries, buckets and the command line.
use aw_watcher_agent::api::{
    actor_early_stop_error, actor_unavailable, api_error, end_reply, health, summary_failed,
    unknown_session, ActorExit, ApiStatus, CommandError, SessionResponse,
};
use aw_watcher_agent::buckets::{BucketAction, BucketManager, EVENT_BUCKET_TYPE, SUM_BUCKET_TYPE};
use aw_watcher_agent::cli::{
    chosen_command, client_name, server_port, Command, DEFAULT_DAEMON_LISTEN,
};
use aw_watcher_agent::events::SessionKey;
use aw_watcher_agent::recorded::{RecordedSummaries, EMITTED_SUMMARY_ID_LIMIT};
use aw_watcher_agent::retry::{summary_context, Backoff};

fn key() -> SessionKey {
    SessionKey::new("pi".to_string(), "s-1".to_string(), Some("run".to_string()))
}

#[test]
fn refusals_have_their_status_and_text() {
    let unknown = unknown_session(&key());
    assert_eq!(unknown.status, ApiStatus::NotFound);
    assert_eq!(unknown.error, "unknown session: pi/s-1");

    let failed = summary_failed("summary event for pi/s-1");
    assert_eq!(failed.status, ApiStatus::BadGateway);
    assert_eq!(
        failed.error,
        "failed to write summary ActivityWatch event: summary event for pi/s-1"
    );

    let unavailable = actor_unavailable();
    assert_eq!(unavailable.status, ApiStatus::ServiceUnavailable);
    assert_eq!(unavailable.error, "session actor unavailable");

    let (code, body) = api_error(unknown.status, unknown.error);
    assert_eq!(code, 404);
    assert!(!body.ok);
    assert_eq!(body.error, "unknown session: pi/s-1");
    assert_eq!(ApiStatus::BadGateway.code(), 502);
    assert_eq!(ApiStatus::ServiceUnavailable.code(), 503);
}

#[test]
fn an_end_is_answered_as_the_actor_says() {
    let taken = end_reply(Some(Ok(SessionResponse::ok("s-1".to_string())))).unwrap();
    assert!(taken.ok);
    assert_eq!(taken.session_id, "s-1");

    let refused = end_reply(Some(Err(CommandError {
        status: ApiStatus::BadGateway,
        error: "no".to_string(),
    })))
    .unwrap_err();
    assert_eq!((refused.status, refused.error.as_str()), (ApiStatus::BadGateway, "no"));

    let stopped = end_reply(None).unwrap_err();
    assert_eq!(stopped.status, ApiStatus::ServiceUnavailable);
    assert_eq!(stopped.error, "session actor stopped before completing end request");
}

#[test]
fn health_counts_no_session_without_an_answer() {
    let well = health("e".to_string(), "s".to_string(), Some(4));
    assert!(well.ok);
    assert_eq!(well.service, "aw-watcher-agent");
    assert_eq!((well.event_bucket_id.as_str(), well.sum_bucket_id.as_str()), ("e", "s"));
    assert_eq!(well.active_sessions, 4);
    assert_eq!(health("e".to_string(), "s".to_string(), None).active_sessions, 0);
}

#[test]
fn an_early_stop_says_how_it_came() {
    assert_eq!(
        actor_early_stop_error(ActorExit::Finished, "x"),
        "session actor stopped unexpectedly"
    );
    assert_eq!(actor_early_stop_error(ActorExit::Panicked, "x"), "session actor panicked: x");
    assert_eq!(actor_early_stop_error(ActorExit::Failed, "x"), "session actor task failed: x");
}

#[test]
fn a_write_is_tried_three_times_with_growing_pauses() {
    let mut backoff = Backoff::new();
    assert_eq!(backoff.attempt, 1);
    assert_eq!(backoff.after_failure(), Some(100));
    assert_eq!(backoff.attempt, 2);
    assert_eq!(backoff.after_failure(), Some(200));
    assert_eq!(backoff.attempt, 3);
    assert_eq!(backoff.after_failure(), None);
    assert_eq!(backoff.after_failure(), None);
    assert_eq!(backoff.attempt, 3);
    assert_eq!(summary_context(&key()), "summary event for pi/s-1");
}

#[test]
fn buckets_are_named_after_the_host() {
    let buckets = BucketManager::new("box");
    assert_eq!(buckets.event_bucket_id, "aw-watcher-agent-event_box");
    assert_eq!(buckets.sum_bucket_id, "aw-watcher-agent-sum_box");

    let setup = buckets.setup();
    assert_eq!(setup.len(), 2);
    assert_eq!(setup[0].bucket_id, "aw-watcher-agent-event_box");
    assert_eq!(setup[0].bucket_type, "app.editor.activity");
    assert_eq!(setup[1].bucket_id, "aw-watcher-agent-sum_box");
    assert_eq!(setup[1].bucket_type, "app.code-agent.summary");
    assert_eq!((EVENT_BUCKET_TYPE, SUM_BUCKET_TYPE), ("app.editor.activity", "app.code-agent.summary"));

    assert_eq!(
        buckets.teardown(),
        vec!["aw-watcher-agent-event_box", "aw-watcher-agent-sum_box", "aw-watcher-agent_box"]
    );
}

#[test]
fn a_bucket_is_created_unless_it_is_there() {
    let ensure = |existing: Option<&str>| {
        BucketManager::ensure_bucket(existing.map(str::to_string), EVENT_BUCKET_TYPE)
    };
    assert_eq!(ensure(None), BucketAction::Create);
    assert_eq!(ensure(Some("app.editor.activity")), BucketAction::Keep);
    assert_eq!(ensure(Some("app.code-agent.summary")), BucketAction::Recreate);
}

#[test]
fn the_command_line_has_its_defaults() {
    assert_eq!(server_port(None, false), 5600);
    assert_eq!(server_port(None, true), 5666);
    assert_eq!(server_port(Some(80), true), 80);
    assert_eq!(server_port(Some(80), false), 80);
    assert_eq!(chosen_command(None), Command::Daemon);
    assert_eq!(chosen_command(Some(Command::Status)), Command::Status);
    assert_eq!(client_name(Command::Daemon), "aw-watcher-agent-daemon");
    assert_eq!(client_name(Command::Teardown), "aw-watcher-agent-cli");
    assert_eq!(client_name(Command::Status), "aw-watcher-agent-cli");
    assert_eq!(DEFAULT_DAEMON_LISTEN, "127.0.0.1:5667");
}

#[test]
fn names_of_summaries_are_kept_up_to_a_limit() {
    let mut recorded = RecordedSummaries::new();
    assert!(!recorded.contains(&"a".to_string()));
    recorded.remember("a".to_string());
    recorded.remember("a".to_string());
    assert_eq!(recorded.ids.len(), 1);
    assert!(recorded.contains(&"a".to_string()));

    recorded.ids.clear();
    for i in 0..EMITTED_SUMMARY_ID_LIMIT {
        recorded.ids.push_back(format!("id-{}", i));
    }
    recorded.remember("id-0".to_string());
    assert!(recorded.contains(&"id-0".to_string()));
    recorded.remember("one more".to_string());
    assert_eq!(recorded.ids.len(), EMITTED_SUMMARY_ID_LIMIT);
    assert!(!recorded.contains(&"id-0".to_string()));
    assert!(recorded.contains(&"id-1".to_string()));
    assert!(recorded.contains(&"one more".to_string()));
}

#[test]
fn keys_tell_runs_apart() {
    assert!(key().same(&key().clone()));
    let other = |agent: &str, session: &str, instance: Option<&str>| {
        SessionKey::new(agent.to_string(), session.to_string(), instance.map(str::to_string))
    };
    assert!(!key().same(&other("codex", "s-1", Some("run"))));
    assert!(!key().same(&other("pi", "s-2", Some("run"))));
    assert!(!key().same(&other("pi", "s-1", Some("run-2"))));
    assert!(!key().same(&other("pi", "s-1", None)));
    assert!(other("pi", "s-1", None).same(&other("pi", "s-1", None)));
    assert!(key() == key().clone());
}
