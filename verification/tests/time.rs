//! Instants and durations, next to those of `chrono`.
use aw_watcher_agent::events::SessionStartRequest;
use aw_watcher_agent::session::ActiveSession;
use aw_watcher_agent::time::{TimeDelta, Timestamp, MAX_SECS, MIN_SECS};
use chrono::{DateTime, Utc};
use serde_json::Value;

fn instants() -> Vec<(i64, u32)> {
    vec![
        (MIN_SECS, 0),
        (MIN_SECS, 999_999_999),
        (-86_401, 1_999_999_999),
        (-86_400, 0),
        (-1, 0),
        (-1, 999_999_999),
        (-1, 1_000_000_000),
        (0, 0),
        (59, 1_500_000_000),
        (60, 0),
        (60, 250_000_000),
        (119, 1_250_000_000),
        (86_399, 1_000_000_000),
        (86_400, 0),
        (172_740, 3),
        (1_779_321_600, 123_456_789),
        (1_483_228_799, 1_999_999_999),
        (MAX_SECS, 999_999_999),
        (MAX_SECS, 1_999_999_999),
    ]
}

fn chrono_instant(secs: i64, nanos: u32) -> DateTime<Utc> {
    DateTime::from_timestamp(secs, nanos).unwrap()
}

#[test]
fn there_are_just_the_instants_of_chrono() {
    let seconds = [
        i64::MIN, MIN_SECS - 1, MIN_SECS, -86_401, -60, -59, -1, 0, 1, 58, 59, 60, 119, 86_399,
        MAX_SECS - 60, MAX_SECS, MAX_SECS + 1, i64::MAX,
    ];
    let nanos = [0, 1, 999_999_999, 1_000_000_000, 1_999_999_999, 2_000_000_000, u32::MAX];
    for s in seconds {
        for n in nanos {
            let here = Timestamp::new(s, n);
            let there = DateTime::<Utc>::from_timestamp(s, n);
            assert_eq!(here.is_some(), there.is_some(), "{} {}", s, n);
            if let Some(here) = here {
                assert_eq!((here.secs, here.nanos), (s, n));
            }
        }
    }
    assert_eq!(DateTime::<Utc>::MIN_UTC.timestamp(), MIN_SECS);
    assert_eq!(DateTime::<Utc>::MAX_UTC.timestamp(), MAX_SECS);
}

#[test]
fn durations_are_those_of_chrono_even_around_leap_seconds() {
    for (s1, n1) in instants() {
        for (s2, n2) in instants() {
            let here = Timestamp::new(s1, n1)
                .unwrap()
                .signed_duration_since(Timestamp::new(s2, n2).unwrap());
            let there = chrono_instant(s1, n1).signed_duration_since(chrono_instant(s2, n2));
            let nanos =
                there.num_seconds() as i128 * 1_000_000_000 + there.subsec_nanos() as i128;
            assert_eq!(here.nanos, nanos, "{:?} {:?}", (s1, n1), (s2, n2));
            assert_eq!(here.num_nanoseconds(), there.num_nanoseconds());
            assert_eq!(here.num_milliseconds(), there.num_milliseconds());
        }
    }
}

#[test]
fn instants_are_ordered_as_in_chrono() {
    for (s1, n1) in instants() {
        for (s2, n2) in instants() {
            let (a, b) = (Timestamp::new(s1, n1).unwrap(), Timestamp::new(s2, n2).unwrap());
            let (c, d) = (chrono_instant(s1, n1), chrono_instant(s2, n2));
            assert_eq!(a.not_after(b), c <= d);
            let later = a.max(b);
            assert_eq!(chrono_instant(later.secs, later.nanos), c.max(d));
        }
    }
}

#[test]
fn instants_are_written_as_chrono_writes_them() {
    for (secs, nanos) in instants() {
        let session = ActiveSession::from_start(SessionStartRequest {
            session_id: "s".to_string(),
            session_instance_id: None,
            code_agent: "a".to_string(),
            project_dir: "/p".to_string(),
            model: None,
            started_at: Timestamp::new(secs, nanos),
            metadata: None,
        });
        let ended_at = Timestamp::new(0, 0).unwrap();
        let data = session.to_summary_data("completed", ended_at, None);
        assert_eq!(
            data.get("started_at"),
            Some(&Value::String(chrono_instant(secs, nanos).to_rfc3339()))
        );
        assert_eq!(
            data.get("ended_at"),
            Some(&Value::String("1970-01-01T00:00:00+00:00".to_string()))
        );
    }
}

#[test]
fn lengths_of_time_come_in_several_units() {
    assert_eq!(TimeDelta::zero().nanos, 0);
    assert_eq!(TimeDelta::seconds(-3).nanos, -3_000_000_000);
    assert_eq!(TimeDelta::seconds(i64::MAX).nanos, i64::MAX as i128 * 1_000_000_000);
    assert_eq!(TimeDelta { nanos: 1_999_999 }.num_milliseconds(), 1);
    assert_eq!(TimeDelta { nanos: -1_999_999 }.num_milliseconds(), -1);
    assert_eq!(TimeDelta { nanos: i64::MAX as i128 }.num_nanoseconds(), Some(i64::MAX));
    assert_eq!(TimeDelta { nanos: i64::MIN as i128 }.num_nanoseconds(), Some(i64::MIN));
    assert_eq!(TimeDelta { nanos: i64::MAX as i128 + 1 }.num_nanoseconds(), None);
    assert_eq!(TimeDelta { nanos: i64::MIN as i128 - 1 }.num_nanoseconds(), None);
}

#[test]
fn a_period_that_begins_in_a_leap_second_can_get_shorter() {
    // Whether a leap second counts depends on the times of day, so that the
    // time up to a later instant may be the shorter one.
    let ttl = TimeDelta::seconds(100_000);
    let mut session = ActiveSession::from_start(SessionStartRequest {
        session_id: "s".to_string(),
        session_instance_id: None,
        code_agent: "a".to_string(),
        project_dir: "/p".to_string(),
        model: None,
        started_at: Timestamp::new(0, 0),
        metadata: None,
    });
    session.mark_active(Timestamp::new(59, 1_500_000_000).unwrap(), ttl);
    session.mark_active(Timestamp::new(86_399, 900_000_000).unwrap(), ttl);
    assert_eq!(session.active_duration().nanos, 86_340_400_000_000);
    session.mark_active(Timestamp::new(86_400, 0).unwrap(), ttl);
    assert_eq!(session.active_duration().nanos, 86_339_500_000_000);
}
