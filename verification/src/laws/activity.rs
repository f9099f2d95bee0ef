//! Laws of activity.
use vstd::prelude::*;

use crate::session::{instant_or, span_bound, SessionView};
use crate::time::{TimeDelta, Timestamp, NANOS_PER_SEC};

verus! {

/// A sign of activity that comes no later than the last one, in a current
/// period of activity, changes nothing: clocks that go back are ignored.
pub proof fn clock_regression_is_ignored(session: SessionView, at: Timestamp, ttl: TimeDelta)
    requires
        session.wf(),
        session.active_started_at is Some,
        at.at_most(session.last_active_at->0),
        ttl.nanos >= 0,
    ensures
        session.marked(at, ttl) == session,
{
}

/// The last sign of activity never moves back, and the first one never moves.
pub proof fn signs_of_activity_stay_in_order(session: SessionView, at: Timestamp, ttl: TimeDelta)
    requires
        session.wf(),
        at.wf(),
    ensures
        ({
            let after = session.marked(at, ttl);
            &&& after.first_active_at is Some
            &&& session.first_active_at is Some ==> after.first_active_at
                == session.first_active_at
            &&& after.last_active_at == Some(session.no_earlier_than_last(at))
            &&& at.at_most(after.last_active_at->0)
            &&& session.last_active_at is Some ==> (session.last_active_at->0).at_most(
                after.last_active_at->0,
            )
        }),
{
}

/// Activity ends without any loss: the time that a session was active is the
/// same before and after its current period of activity is ended, and to end
/// it once more changes nothing.
pub proof fn finishing_keeps_active_time(session: SessionView)
    requires
        session.wf(),
    ensures
        session.finished().active_nanos() == session.active_nanos(),
        session.finished().finished() == session.finished(),
        session.finished().active_started_at is None,
        session.finished().last_active_at == session.last_active_at,
{
    if session.active_started_at is Some {
        lemma_period(session, session.last_active_at->0);
    }
}

proof fn lemma_period(session: SessionView, end: Timestamp)
    requires
        session.wf(),
        session.active_started_at is Some,
        end.wf(),
        (session.last_active_at->0).at_most(end),
    ensures
        session.closed(end).past_duration.nanos == session.past_duration.nanos
            + session.period_until(end),
        session.period_until(end) <= span_bound(session.active_started_at->0, end),
{
}

/// A sign of activity that comes longer after the last one than `ttl` begins a
/// new period, and the time in between does not count.
pub proof fn idle_time_does_not_count(session: SessionView, at: Timestamp, ttl: TimeDelta)
    requires
        session.wf(),
        at.wf(),
        session.last_active_at is Some,
        session.no_earlier_than_last(at).nanos_since(session.last_active_at->0) > ttl.nanos,
    ensures
        session.marked(at, ttl).active_nanos() == session.active_nanos(),
        session.marked(at, ttl).active_started_at == Some(session.no_earlier_than_last(at)),
{
    if session.active_started_at is Some {
        lemma_period(session, session.last_active_at->0);
    }
}

/// A sign of activity that comes within `ttl` of the last one, in a current
/// period of activity, prolongs this period up to itself.
pub proof fn time_between_signs_counts(session: SessionView, at: Timestamp, ttl: TimeDelta)
    requires
        session.wf(),
        at.wf(),
        session.active_started_at is Some,
        session.no_earlier_than_last(at).nanos_since(session.last_active_at->0) <= ttl.nanos,
    ensures
        session.marked(at, ttl).active_nanos() == session.past_duration.nanos
            + session.period_until(session.no_earlier_than_last(at)),
        session.marked(at, ttl).active_started_at == session.active_started_at,
{
}

/// A sign of activity that comes within `ttl` of the last one, in a current
/// period of activity, adds exactly the time since the last one, wherever none
/// of the instants lies in a leap second.
pub proof fn a_sign_adds_the_time_since_the_last_one(
    session: SessionView,
    at: Timestamp,
    ttl: TimeDelta,
)
    requires
        session.wf(),
        at.wf(),
        session.active_started_at is Some,
        session.no_earlier_than_last(at).nanos_since(session.last_active_at->0) <= ttl.nanos,
        !at.is_leap(),
        !(session.last_active_at->0).is_leap(),
        !(session.active_started_at->0).is_leap(),
    ensures
        session.marked(at, ttl).active_nanos() == session.active_nanos()
            + session.no_earlier_than_last(at).nanos_since(session.last_active_at->0),
{
}

/// Active time never shrinks with a sign of activity, wherever none of the
/// instants lies in a leap second.
pub proof fn active_time_never_shrinks(session: SessionView, at: Timestamp, ttl: TimeDelta)
    requires
        session.wf(),
        at.wf(),
        !at.is_leap(),
        session.last_active_at is Some ==> !(session.last_active_at->0).is_leap(),
        session.active_started_at is Some ==> !(session.active_started_at->0).is_leap(),
    ensures
        session.marked(at, ttl).active_nanos() >= session.active_nanos(),
        session.finished_at(at).active_nanos() >= session.active_nanos(),
{
    let end = session.no_earlier_than_last(at);
    if session.active_started_at is Some {
        lemma_period(session, end);
        lemma_period(session, session.last_active_at->0);
    }
}

/// Whatever leap seconds come in between, a sign of activity takes less than
/// three seconds off the active time.
pub proof fn leap_seconds_take_little_off(session: SessionView, at: Timestamp, ttl: TimeDelta)
    requires
        session.wf(),
        at.wf(),
    ensures
        session.marked(at, ttl).active_nanos() > session.active_nanos() - 3 * NANOS_PER_SEC,
        session.finished_at(at).active_nanos() > session.active_nanos() - 3 * NANOS_PER_SEC,
{
    let end = session.no_earlier_than_last(at);
    if session.active_started_at is Some {
        lemma_period(session, end);
        lemma_period(session, session.last_active_at->0);
    }
}

/// A session is active right after a sign of activity, and is not active once
/// its period of activity has been ended.
pub proof fn activity_follows_signs(
    session: SessionView,
    at: Timestamp,
    later: Timestamp,
    ttl: TimeDelta,
)
    requires
        session.wf(),
        at.wf(),
        ttl.nanos >= 0,
    ensures
        session.marked(at, ttl).active_at(session.no_earlier_than_last(at), ttl),
        !session.finished().active_at(later, ttl),
        !session.finished_at(at).active_at(later, ttl),
{
}

/// Whether all the instants of the session lie outside of leap seconds, and its
/// past periods of activity fit in between its first sign of activity and its
/// current period.
pub open spec fn fits_its_span(session: SessionView) -> bool {
    &&& session.first_active_at is Some ==> {
        &&& !(session.first_active_at->0).is_leap()
        &&& !(session.last_active_at->0).is_leap()
        &&& session.active_started_at is Some ==> !(session.active_started_at->0).is_leap()
        &&& session.past_duration.nanos <= instant_or(
            session.active_started_at,
            session.last_active_at->0,
        ).nanos_since(session.first_active_at->0)
    }
}

/// A session is never active for longer than the time from its first to its
/// last sign of activity, as long as no sign falls in a leap second.
pub proof fn active_time_fits_between_first_and_last_sign(session: SessionView)
    requires
        session.wf(),
        fits_its_span(session),
    ensures
        session.first_active_at is None ==> session.active_nanos() == 0,
        session.first_active_at is Some ==> session.active_nanos() <= (
        session.last_active_at->0).nanos_since(session.first_active_at->0),
{
}

/// That a session's activity fits its span holds of a session without any sign
/// of activity, and every sign and every end of a period outside of leap
/// seconds keeps it.
pub proof fn fitting_its_span_is_kept(session: SessionView, at: Timestamp, ttl: TimeDelta)
    requires
        session.wf(),
        at.wf(),
        !at.is_leap(),
    ensures
        session.first_active_at is None ==> fits_its_span(session),
        fits_its_span(session) ==> fits_its_span(session.marked(at, ttl)),
        fits_its_span(session) ==> fits_its_span(session.finished_at(at)),
        fits_its_span(session) ==> fits_its_span(session.finished()),
{
    let end = session.no_earlier_than_last(at);
    if session.active_started_at is Some {
        lemma_period(session, end);
        lemma_period(session, session.last_active_at->0);
    }
}

/// Whatever signs and ends of periods come, what holds of every session is kept.
pub proof fn activity_keeps_sessions_well_formed(
    session: SessionView,
    at: Timestamp,
    ttl: TimeDelta,
)
    requires
        session.wf(),
        at.wf(),
    ensures
        session.marked(at, ttl).wf(),
        session.finished_at(at).wf(),
        session.finished().wf(),
{
    let end = session.no_earlier_than_last(at);
    if session.active_started_at is Some {
        lemma_period(session, end);
        lemma_period(session, session.last_active_at->0);
    }
}

/// The session after a list of signs of activity.
pub open spec fn after_signs(
    session: SessionView,
    signs: Seq<Timestamp>,
    ttl: TimeDelta,
) -> SessionView
    decreases signs.len(),
{
    if signs.len() == 0 {
        session
    } else {
        after_signs(session, signs.drop_last(), ttl).marked(signs.last(), ttl)
    }
}

/// The latest of the signs.
pub open spec fn latest_of(signs: Seq<Timestamp>) -> Timestamp
    decreases signs.len(),
{
    if signs.len() <= 1 {
        signs[0]
    } else {
        signs.last().latest(latest_of(signs.drop_last()))
    }
}

/// The time between each latest sign and the next one, added up over those
/// that lie no further apart than `ttl`.
pub open spec fn time_within(signs: Seq<Timestamp>, ttl: TimeDelta) -> int
    decreases signs.len(),
{
    if signs.len() <= 1 {
        0
    } else {
        let gap = latest_of(signs).nanos_since(latest_of(signs.drop_last()));
        time_within(signs.drop_last(), ttl) + if gap <= ttl.nanos {
            gap
        } else {
            0
        }
    }
}

/// The active time of a session is what its signs of activity say, in whatever
/// order they come: the time between each latest sign and the next one, where
/// that is no longer than `ttl`. It fits between the first sign and the latest.
/// This holds where no sign lies in a leap second.
pub proof fn active_time_is_the_time_between_signs(
    session: SessionView,
    signs: Seq<Timestamp>,
    ttl: TimeDelta,
)
    requires
        session.wf(),
        !session.ever_active(),
        signs.len() > 0,
        forall|i: int| 0 <= i < signs.len() ==> (#[trigger] signs[i]).wf() && !signs[i].is_leap(),
    ensures
        ({
            let after = after_signs(session, signs, ttl);
            &&& after.wf()
            &&& after.active_nanos() == time_within(signs, ttl)
            &&& after.first_active_at == Some(signs[0])
            &&& after.last_active_at == Some(latest_of(signs))
            &&& after.active_started_at is Some
            &&& !(after.active_started_at->0).is_leap()
            &&& !latest_of(signs).is_leap()
            &&& 0 <= after.active_nanos() <= latest_of(signs).nanos_since(signs[0])
            &&& fits_its_span(after)
        }),
    decreases signs.len(),
{
    let rest = signs.drop_last();
    let at = signs[signs.len() - 1];
    let before = after_signs(session, rest, ttl);
    if signs.len() == 1 {
        assert(before == session);
    } else {
        assert forall|i: int| 0 <= i < rest.len() implies (#[trigger] rest[i]).wf()
            && !rest[i].is_leap() by {
            assert(rest[i] == signs[i]);
        }
        active_time_is_the_time_between_signs(session, rest, ttl);
        assert(rest[0] == signs[0]);
        let end = before.no_earlier_than_last(at);
        if end.nanos_since(before.last_active_at->0) <= ttl.nanos {
            a_sign_adds_the_time_since_the_last_one(before, at, ttl);
        } else {
            idle_time_does_not_count(before, at, ttl);
        }
    }
    activity_keeps_sessions_well_formed(before, at, ttl);
    fitting_its_span_is_kept(before, at, ttl);
    active_time_fits_between_first_and_last_sign(after_signs(session, signs, ttl));
}

/// The time, or none where it would be negative.
pub open spec fn or_nothing(nanos: int) -> int {
    if nanos > 0 {
        nanos
    } else {
        0
    }
}

/// Active time is that of the past periods and, where there is a current one,
/// the time from its begin to the last sign, and it is never negative.
pub proof fn active_time_is_in_range(session: SessionView)
    requires
        session.wf(),
    ensures
        0 <= session.active_nanos() <= i128::MAX,
        session.active_started_at is None ==> session.active_nanos() == session.past_duration.nanos,
        session.active_started_at is Some ==> session.active_nanos() == session.past_duration.nanos
            + or_nothing(
            (session.last_active_at->0).nanos_since(session.active_started_at->0),
        ),
        session.active_started_at is Some && !(session.active_started_at->0).is_leap() && !(
        session.last_active_at->0).is_leap() ==> session.active_nanos()
            == session.past_duration.nanos + (session.last_active_at->0).nanos_since(
            session.active_started_at->0,
        ),
{
    if session.active_started_at is Some {
        lemma_period(session, session.last_active_at->0);
    }
}

/// A session that has given signs is active as long as the latest of them is no
/// longer ago than `ttl`. It is no longer active once its period was ended.
pub proof fn a_session_is_active_after_its_latest_sign(
    session: SessionView,
    signs: Seq<Timestamp>,
    ttl: TimeDelta,
    now: Timestamp,
    end: Timestamp,
)
    requires
        session.wf(),
        !session.ever_active(),
        signs.len() > 0,
        forall|i: int| 0 <= i < signs.len() ==> (#[trigger] signs[i]).wf() && !signs[i].is_leap(),
    ensures
        after_signs(session, signs, ttl).active_at(now, ttl) <==> now.nanos_since(latest_of(signs))
            <= ttl.nanos,
        after_signs(session, signs, ttl).ever_active(),
        !after_signs(session, signs, ttl).finished_at(end).active_at(now, ttl),
        !session.active_at(now, ttl),
{
    active_time_is_the_time_between_signs(session, signs, ttl);
}

} // verus!
